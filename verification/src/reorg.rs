//! Media reorganisation: for every attachment of the target kind with a
//! resolvable creation timestamp, a copy operation from the data root into a
//! date-bucketed output directory, the file name prefixed with the
//! timestamp's civil form.  The calendar arithmetic is the proleptic
//! Gregorian calendar over UTC.
use vstd::prelude::*;
use vstd::string::StrSliceExecFns;
use vstd::string::StringExecFns;

use crate::classify::last_slash_at;
use crate::messages::{views_of, Message, MessageFile, MessageV, PhotoV, VideoV, MAX_TS_SECONDS};
use crate::MagicError;

verus! {

// ----------------------------------------------------------------------------
// Calendar arithmetic.
// ----------------------------------------------------------------------------

pub open spec fn is_leap_year(y: int) -> bool {
    (y % 4 == 0 && y % 100 != 0) || y % 400 == 0
}

pub open spec fn days_in_year(y: int) -> int {
    if is_leap_year(y) {
        366
    } else {
        365
    }
}

pub open spec fn days_in_month(y: int, m: int) -> int {
    if m == 2 {
        if is_leap_year(y) {
            29
        } else {
            28
        }
    } else if m == 4 || m == 6 || m == 9 || m == 11 {
        30
    } else {
        31
    }
}

/// The year holding day `d` counted from the start of year `y`, and the
/// zero-based day of that year.
pub open spec fn year_and_doy(y: int, d: int) -> (int, int)
    decreases d,
{
    if d < days_in_year(y) {
        (y, d)
    } else {
        year_and_doy(y + 1, d - days_in_year(y))
    }
}

/// The month holding day `d` counted from the start of month `m` of year
/// `y`, and the zero-based day of that month.
pub open spec fn month_and_dom(y: int, m: int, d: int) -> (int, int)
    decreases d,
{
    if d < days_in_month(y, m) {
        (m, d)
    } else {
        month_and_dom(y, m + 1, d - days_in_month(y, m))
    }
}

/// Days in the years of `[y1, y2)`.
pub open spec fn days_range(y1: int, y2: int) -> int
    decreases y2 - y1 when y1 <= y2
{
    if y1 >= y2 {
        0
    } else {
        days_in_year(y1) + days_range(y1 + 1, y2)
    }
}

/// Days in the months of `[m, 13)` of year `y`.
pub open spec fn months_range(y: int, m: int) -> int
    decreases 13 - m when m <= 13
{
    if m >= 13 {
        0
    } else {
        days_in_month(y, m) + months_range(y, m + 1)
    }
}

proof fn lemma_div_step(n: int, k: int)
    requires
        n >= 1,
        k >= 2,
    ensures
        n / k == (n - 1) / k + (if n % k == 0 {
            1int
        } else {
            0int
        }),
{
    vstd::arithmetic::div_mod::lemma_fundamental_div_mod(n, k);
    vstd::arithmetic::div_mod::lemma_mod_pos_bound(n, k);
    let q = n / k;
    let r = n % k;
    if r == 0 {
        assert((q - 1) * k == q * k - k) by (nonlinear_arith);
        assert(n - 1 == (q - 1) * k + (k - 1)) by (nonlinear_arith)
            requires
                n == k * q + r,
                r == 0,
        ;
        vstd::arithmetic::div_mod::lemma_fundamental_div_mod_converse(n - 1, k, q - 1, k - 1);
    } else {
        assert(n - 1 == q * k + (r - 1)) by (nonlinear_arith)
            requires
                n == k * q + r,
        ;
        vstd::arithmetic::div_mod::lemma_fundamental_div_mod_converse(n - 1, k, q, r - 1);
    }
}

/// The leap years up to and including year `n`, counted from year 1.
pub open spec fn leap_acc(n: int) -> int {
    n / 4 - n / 100 + n / 400
}

proof fn lemma_divisibility(y: int)
    requires
        y >= 1,
    ensures
        y % 400 == 0 ==> y % 100 == 0 && y % 4 == 0,
        y % 100 == 0 ==> y % 4 == 0,
{
    if y % 400 == 0 {
        vstd::arithmetic::div_mod::lemma_fundamental_div_mod(y, 400);
        let q = y / 400;
        assert(y == 100 * (4 * q) + 0 && y == 4 * (100 * q) + 0) by (nonlinear_arith)
            requires
                y == 400 * q,
        ;
        vstd::arithmetic::div_mod::lemma_fundamental_div_mod_converse(y, 100, 4 * q, 0);
        vstd::arithmetic::div_mod::lemma_fundamental_div_mod_converse(y, 4, 100 * q, 0);
    }
    if y % 100 == 0 {
        vstd::arithmetic::div_mod::lemma_fundamental_div_mod(y, 100);
        let q = y / 100;
        assert(y == 4 * (25 * q) + 0) by (nonlinear_arith)
            requires
                y == 100 * q,
        ;
        vstd::arithmetic::div_mod::lemma_fundamental_div_mod_converse(y, 4, 25 * q, 0);
    }
}

proof fn lemma_leap_step(y: int)
    requires
        y >= 1,
    ensures
        leap_acc(y) - leap_acc(y - 1) == (if is_leap_year(y) {
            1int
        } else {
            0int
        }),
{
    lemma_div_step(y, 4);
    lemma_div_step(y, 100);
    lemma_div_step(y, 400);
    lemma_divisibility(y);
}

proof fn lemma_days_range_closed(a: int, b: int)
    requires
        1 <= a <= b,
    ensures
        days_range(a, b) == 365 * (b - a) + leap_acc(b - 1) - leap_acc(a - 1),
    decreases b - a,
{
    if a < b {
        lemma_days_range_closed(a, b - 1);
        lemma_days_range_snoc(a, b - 1);
        lemma_leap_step(b - 1);
    }
}

proof fn lemma_total_days_to_year_ten_thousand()
    ensures
        days_range(1970, 10000) == 2932897,
{
    lemma_days_range_closed(1970, 10000);
    assert(9999 == 4 * 2499 + 3 && 9999 == 100 * 99 + 99 && 9999 == 400 * 24 + 399);
    vstd::arithmetic::div_mod::lemma_fundamental_div_mod_converse(9999, 4, 2499, 3);
    vstd::arithmetic::div_mod::lemma_fundamental_div_mod_converse(9999, 100, 99, 99);
    vstd::arithmetic::div_mod::lemma_fundamental_div_mod_converse(9999, 400, 24, 399);
    vstd::arithmetic::div_mod::lemma_fundamental_div_mod_converse(1969, 4, 492, 1);
    vstd::arithmetic::div_mod::lemma_fundamental_div_mod_converse(1969, 100, 19, 69);
    vstd::arithmetic::div_mod::lemma_fundamental_div_mod_converse(1969, 400, 4, 369);
}

proof fn lemma_days_range_snoc(a: int, b: int)
    requires
        a <= b,
    ensures
        days_range(a, b + 1) == days_range(a, b) + days_in_year(b),
    decreases b - a,
{
    if a == b {
        assert(days_range(a, b) == 0);
        assert(days_range(b + 1, b + 1) == 0);
        assert(days_range(a, b + 1) == days_in_year(a) + days_range(a + 1, b + 1));
    } else {
        lemma_days_range_snoc(a + 1, b);
        assert(days_range(a, b + 1) == days_in_year(a) + days_range(a + 1, b + 1));
        assert(days_range(a, b) == days_in_year(a) + days_range(a + 1, b));
    }
}

proof fn lemma_months_total(y: int)
    ensures
        months_range(y, 1) == days_in_year(y),
{
    assert(months_range(y, 13) == 0);
    assert(months_range(y, 12) == 31);
    assert(months_range(y, 11) == 61);
    assert(months_range(y, 10) == 92);
    assert(months_range(y, 9) == 122);
    assert(months_range(y, 8) == 153);
    assert(months_range(y, 7) == 184);
    assert(months_range(y, 6) == 214);
    assert(months_range(y, 5) == 245);
    assert(months_range(y, 4) == 275);
    assert(months_range(y, 3) == 306);
    assert(months_range(y, 2) == months_range(y, 3) + days_in_month(y, 2));
    assert(months_range(y, 1) == months_range(y, 2) + 31);
}

proof fn lemma_year_doy_range(y: int, d: int)
    requires
        0 <= d,
    ensures
        ({
            let (fy, doy) = year_and_doy(y, d);
            &&& y <= fy
            &&& 0 <= doy < days_in_year(fy)
        }),
    decreases d,
{
    if d >= days_in_year(y) {
        lemma_year_doy_range(y + 1, d - days_in_year(y));
    }
}

proof fn lemma_month_dom_range(y: int, m: int, d: int)
    requires
        1 <= m <= 12,
        0 <= d < months_range(y, m),
    ensures
        ({
            let (fm, dom) = month_and_dom(y, m, d);
            &&& m <= fm <= 12
            &&& 0 <= dom < days_in_month(y, fm)
        }),
    decreases d,
{
    if d >= days_in_month(y, m) {
        assert(months_range(y, m) == days_in_month(y, m) + months_range(y, m + 1));
        assert(months_range(y, 13) == 0);
        lemma_month_dom_range(y, m + 1, d - days_in_month(y, m));
    }
}

/// The civil form of an epoch timestamp, over UTC.
pub struct CivilV {
    pub year: int,
    pub month: int,
    pub day: int,
    pub hour: int,
    pub minute: int,
    pub second: int,
}

pub open spec fn spec_civil(ts: int) -> CivilV {
    let days = ts / 86400;
    let rem = ts % 86400;
    let yd = year_and_doy(1970, days);
    let md = month_and_dom(yd.0, 1, yd.1);
    CivilV {
        year: yd.0,
        month: md.0,
        day: md.1 + 1,
        hour: rem / 3600,
        minute: (rem % 3600) / 60,
        second: rem % 60,
    }
}

/// An epoch timestamp broken into its civil parts.
pub struct DateTimeParts {
    pub year: u64,
    pub month: u64,
    pub day: u64,
    pub hour: u64,
    pub minute: u64,
    pub second: u64,
}

impl View for DateTimeParts {
    type V = CivilV;

    open spec fn view(&self) -> CivilV {
        CivilV {
            year: self.year as int,
            month: self.month as int,
            day: self.day as int,
            hour: self.hour as int,
            minute: self.minute as int,
            second: self.second as int,
        }
    }
}

fn days_in_year_num(y: u64) -> (r: u64)
    requires
        y <= 10000,
    ensures
        r == days_in_year(y as int),
{
    if (y % 4 == 0 && y % 100 != 0) || y % 400 == 0 {
        366
    } else {
        365
    }
}

fn days_in_month_num(y: u64, m: u64) -> (r: u64)
    requires
        y <= 10000,
        1 <= m <= 12,
    ensures
        r == days_in_month(y as int, m as int),
{
    if m == 2 {
        if (y % 4 == 0 && y % 100 != 0) || y % 400 == 0 {
            29
        } else {
            28
        }
    } else if m == 4 || m == 6 || m == 9 || m == 11 {
        30
    } else {
        31
    }
}

/// Break an epoch timestamp into its civil parts.
pub fn civil_from_ts(ts: u64) -> (r: DateTimeParts)
    requires
        ts <= MAX_TS_SECONDS,
    ensures
        r@ == spec_civil(ts as int),
        1970 <= r.year <= 9999,
        1 <= r.month <= 12,
        1 <= r.day <= 31,
        r.hour <= 23,
        r.minute <= 59,
        r.second <= 59,
{
    let days: u64 = ts / 86400;
    let rem: u64 = ts % 86400;
    proof {
        assert(days <= 2932896) by (nonlinear_arith)
            requires
                ts <= 253402300799,
                days == ts / 86400,
        ;
        lemma_total_days_to_year_ten_thousand();
    }
    let mut year: u64 = 1970;
    let mut rem_days: u64 = days;
    while rem_days >= days_in_year_num(year)
        invariant
            1970 <= year <= 9999,
            rem_days <= days,
            days <= 2932896,
            days_range(1970, 10000) == 2932897,
            days_range(1970, year as int) + rem_days == days,
            year_and_doy(1970, days as int) == year_and_doy(year as int, rem_days as int),
        decreases rem_days,
    {
        let d = days_in_year_num(year);
        proof {
            lemma_days_range_snoc(1970, year as int);
            if year == 9999 {
                lemma_days_range_snoc(1970, 9999);
                assert(false);
            }
        }
        rem_days -= d;
        year += 1;
    }
    proof {
        lemma_year_doy_range(1970, days as int);
        assert(year_and_doy(year as int, rem_days as int) == (year as int, rem_days as int));
        lemma_months_total(year as int);
    }
    let mut month: u64 = 1;
    let mut dom: u64 = rem_days;
    while dom >= days_in_month_num(year, month)
        invariant
            1970 <= year <= 9999,
            1 <= month <= 12,
            dom < months_range(year as int, month as int),
            month_and_dom(year as int, 1, rem_days as int) == month_and_dom(
                year as int,
                month as int,
                dom as int,
            ),
        decreases dom,
    {
        let d = days_in_month_num(year, month);
        proof {
            assert(months_range(year as int, month as int) == days_in_month(
                year as int,
                month as int,
            ) + months_range(year as int, month as int + 1));
            assert(months_range(year as int, 13) == 0);
        }
        dom -= d;
        month += 1;
    }
    proof {
        lemma_month_dom_range(year as int, 1, rem_days as int);
        assert(month_and_dom(year as int, month as int, dom as int) == (month as int, dom as int));
        assert(rem < 86400);
        assert(rem / 3600 <= 23) by (nonlinear_arith)
            requires
                rem < 86400,
        ;
        assert((rem % 3600) / 60 <= 59) by (nonlinear_arith)
            requires
                rem < 86400,
        ;
    }
    DateTimeParts {
        year,
        month,
        day: dom + 1,
        hour: rem / 3600,
        minute: (rem % 3600) / 60,
        second: rem % 60,
    }
}

// ----------------------------------------------------------------------------
// Decimal formatting of the civil parts.
// ----------------------------------------------------------------------------

pub open spec fn digit_char(d: int) -> char {
    if d == 0 {
        '0'
    } else if d == 1 {
        '1'
    } else if d == 2 {
        '2'
    } else if d == 3 {
        '3'
    } else if d == 4 {
        '4'
    } else if d == 5 {
        '5'
    } else if d == 6 {
        '6'
    } else if d == 7 {
        '7'
    } else if d == 8 {
        '8'
    } else {
        '9'
    }
}

/// `n` as two decimal digits, zero-padded.
pub open spec fn dec2(n: int) -> Seq<char> {
    seq![digit_char(n / 10), digit_char(n % 10)]
}

/// `n` as four decimal digits, zero-padded.
pub open spec fn dec4(n: int) -> Seq<char> {
    seq![
        digit_char(n / 1000),
        digit_char((n / 100) % 10),
        digit_char((n / 10) % 10),
        digit_char(n % 10),
    ]
}

fn digit_str(d: u64) -> (r: &'static str)
    requires
        d <= 9,
    ensures
        r@ =~= seq![digit_char(d as int)],
{
    proof {
        reveal_strlit("0");
        reveal_strlit("1");
        reveal_strlit("2");
        reveal_strlit("3");
        reveal_strlit("4");
        reveal_strlit("5");
        reveal_strlit("6");
        reveal_strlit("7");
        reveal_strlit("8");
        reveal_strlit("9");
    }
    if d == 0 {
        "0"
    } else if d == 1 {
        "1"
    } else if d == 2 {
        "2"
    } else if d == 3 {
        "3"
    } else if d == 4 {
        "4"
    } else if d == 5 {
        "5"
    } else if d == 6 {
        "6"
    } else if d == 7 {
        "7"
    } else if d == 8 {
        "8"
    } else {
        "9"
    }
}

fn push_dec2(s: &mut String, n: u64)
    requires
        n <= 99,
    ensures
        final(s)@ == old(s)@ + dec2(n as int),
{
    s.append(digit_str(n / 10));
    s.append(digit_str(n % 10));
    proof {
        assert(final(s)@ =~= old(s)@ + dec2(n as int));
    }
}

fn push_dec4(s: &mut String, n: u64)
    requires
        n <= 9999,
    ensures
        final(s)@ == old(s)@ + dec4(n as int),
{
    s.append(digit_str(n / 1000));
    s.append(digit_str((n / 100) % 10));
    s.append(digit_str((n / 10) % 10));
    s.append(digit_str(n % 10));
    proof {
        assert(final(s)@ =~= old(s)@ + dec4(n as int));
    }
}

// ----------------------------------------------------------------------------
// Destination paths.
// ----------------------------------------------------------------------------

/// The final segment of a path: everything after its last separator, or the
/// whole path where there is none.
pub open spec fn base_name(s: Seq<char>) -> Seq<char> {
    if last_slash_at(s) >= 0 {
        s.subrange(last_slash_at(s) + 1, s.len() as int)
    } else {
        s
    }
}

/// The final segment of a path.
pub fn base_name_of(path: &str) -> (r: String)
    ensures
        r@ == base_name(path@),
{
    let n = path.unicode_len();
    let mut k: usize = n;
    proof {
        assert(path@.take(n as int) =~= path@);
    }
    while k > 0
        invariant
            k <= n,
            n == path@.len(),
            last_slash_at(path@) == last_slash_at(path@.take(k as int)),
        decreases k,
    {
        let c = path.get_char(k - 1);
        if c == '/' {
            proof {
                assert(path@.take(k as int)[k - 1] == path@[k - 1]);
                assert(last_slash_at(path@.take(k as int)) == k - 1);
            }
            let r = path.substring_char(k, n);
            proof {
                assert(r@ =~= base_name(path@));
            }
            return String::from_str(r);
        }
        proof {
            assert(path@.take(k as int)[k - 1] == path@[k - 1]);
            assert(path@.take(k as int).drop_last() =~= path@.take(k as int - 1));
        }
        k -= 1;
    }
    proof {
        assert(path@.take(0).len() == 0);
        assert(base_name(path@) =~= path@);
    }
    String::from_str(path)
}

/// The timestamp's civil form as a file-name prefix.
pub open spec fn spec_timestamp_tag(ts: int) -> Seq<char> {
    let c = spec_civil(ts);
    dec4(c.year) + "-"@ + dec2(c.month) + "-"@ + dec2(c.day) + "-"@ + dec2(c.hour) + "-"@ + dec2(
        c.minute,
    ) + "-"@ + dec2(c.second)
}

/// The date-bucketed directory one attachment lands in.
pub open spec fn spec_dest_dir(user: Seq<char>, ts: int) -> Seq<char> {
    let c = spec_civil(ts);
    "output/"@ + user + "/"@ + dec4(c.year) + "/"@ + dec2(c.month)
}

/// Where the attachment's source file stands: the data root joined with its
/// stored relative uri.
pub open spec fn spec_src_path(uri: Seq<char>) -> Seq<char> {
    "data/"@ + uri
}

/// The attachment's full destination path.
pub open spec fn spec_dest_file(user: Seq<char>, ts: int, uri: Seq<char>) -> Seq<char> {
    spec_dest_dir(user, ts) + "/"@ + spec_timestamp_tag(ts) + "-"@ + base_name(spec_src_path(uri))
}

/// One planned copy: source file, destination directory to create, and full
/// destination path.
#[derive(Debug)]
pub struct CopyOp {
    pub src: String,
    pub dest_dir: String,
    pub dest: String,
}

pub struct CopyOpV {
    pub src: Seq<char>,
    pub dest_dir: Seq<char>,
    pub dest: Seq<char>,
}

impl View for CopyOp {
    type V = CopyOpV;

    open spec fn view(&self) -> CopyOpV {
        CopyOpV { src: self.src@, dest_dir: self.dest_dir@, dest: self.dest@ }
    }
}

pub open spec fn spec_copy_op(user: Seq<char>, ts: int, uri: Seq<char>) -> CopyOpV {
    CopyOpV {
        src: spec_src_path(uri),
        dest_dir: spec_dest_dir(user, ts),
        dest: spec_dest_file(user, ts, uri),
    }
}

/// Plan one copy: `output/<user>/<YYYY>/<MM>/<YYYY-MM-DD-HH-MM-SS>-<name>`,
/// where `<name>` is the source file's final segment.
#[verifier::rlimit(100)]
pub fn build_copy_op(user: &str, ts: u64, uri: &str) -> (r: CopyOp)
    requires
        ts <= MAX_TS_SECONDS,
    ensures
        r@ == spec_copy_op(user@, ts as int, uri@),
{
    let c = civil_from_ts(ts);
    let mut src = String::from_str("data/");
    src.append(uri);
    let mut dir = String::from_str("output/");
    dir.append(user);
    dir.append("/");
    push_dec4(&mut dir, c.year);
    dir.append("/");
    push_dec2(&mut dir, c.month);
    let mut dest = dir.clone();
    dest.append("/");
    push_dec4(&mut dest, c.year);
    dest.append("-");
    push_dec2(&mut dest, c.month);
    dest.append("-");
    push_dec2(&mut dest, c.day);
    dest.append("-");
    push_dec2(&mut dest, c.hour);
    dest.append("-");
    push_dec2(&mut dest, c.minute);
    dest.append("-");
    push_dec2(&mut dest, c.second);
    dest.append("-");
    let base = base_name_of(src.as_str());
    dest.append(base.as_str());
    proof {
        assert(src@ =~= spec_src_path(uri@));
        assert(dir@ =~= spec_dest_dir(user@, ts as int));
        assert(dest@ =~= spec_dest_file(user@, ts as int, uri@));
    }
    CopyOp { src, dest_dir: dir, dest }
}

// ----------------------------------------------------------------------------
// The plans, one per media kind.
// ----------------------------------------------------------------------------

/// A photo can be planned only with a resolvable creation timestamp.
pub open spec fn photo_ok(p: PhotoV) -> bool {
    p.creation_timestamp matches Some(t) && t <= MAX_TS_SECONDS
}

pub open spec fn video_ok(v: VideoV) -> bool {
    v.creation_timestamp <= MAX_TS_SECONDS
}

/// The copies one message's photos ask for; nothing where any photo lacks a
/// usable timestamp.  Photos without one are a known gap: they must surface
/// as an unsupported condition, not be silently dropped.
pub open spec fn photo_ops_of_msg(m: MessageV, user: Seq<char>) -> Option<Seq<CopyOpV>> {
    match m.photos {
        None => Some(Seq::empty()),
        Some(ps) => if exists|i: int| 0 <= i < ps.len() && !photo_ok(#[trigger] ps[i]) {
            None
        } else {
            Some(
                ps.map_values(
                    |p: PhotoV| spec_copy_op(user, p.creation_timestamp->0 as int, p.uri),
                ),
            )
        },
    }
}

/// The copies one message's videos ask for.  Every video carries a
/// timestamp; only one beyond the formattable range blocks the plan.
pub open spec fn video_ops_of_msg(m: MessageV, user: Seq<char>) -> Option<Seq<CopyOpV>> {
    match m.videos {
        None => Some(Seq::empty()),
        Some(vs) => if exists|i: int| 0 <= i < vs.len() && !video_ok(#[trigger] vs[i]) {
            None
        } else {
            Some(
                vs.map_values(|v: VideoV| spec_copy_op(user, v.creation_timestamp as int, v.uri)),
            )
        },
    }
}

pub open spec fn spec_photo_plan(msgs: Seq<MessageV>, user: Seq<char>) -> Option<Seq<CopyOpV>>
    decreases msgs.len(),
{
    if msgs.len() == 0 {
        Some(Seq::empty())
    } else {
        match photo_ops_of_msg(msgs[0], user) {
            None => None,
            Some(ops) => match spec_photo_plan(msgs.drop_first(), user) {
                None => None,
                Some(rest) => Some(ops + rest),
            },
        }
    }
}

pub open spec fn spec_video_plan(msgs: Seq<MessageV>, user: Seq<char>) -> Option<Seq<CopyOpV>>
    decreases msgs.len(),
{
    if msgs.len() == 0 {
        Some(Seq::empty())
    } else {
        match video_ops_of_msg(msgs[0], user) {
            None => None,
            Some(ops) => match spec_video_plan(msgs.drop_first(), user) {
                None => None,
                Some(rest) => Some(ops + rest),
            },
        }
    }
}

fn photo_ops_for_msg(m: &Message, user: &str) -> (r: Option<Vec<CopyOp>>)
    ensures
        match r {
            Some(v) => photo_ops_of_msg(m@, user@) == Some(views_of(v@)),
            None => photo_ops_of_msg(m@, user@) is None,
        },
{
    match &m.photos {
        None => {
            let out: Vec<CopyOp> = Vec::new();
            proof {
                assert(views_of(out@) =~= Seq::<CopyOpV>::empty());
            }
            Some(out)
        },
        Some(ps) => {
            let ghost psv = views_of(ps@);
            let ghost op_of = |p: PhotoV| spec_copy_op(
                user@,
                p.creation_timestamp->0 as int,
                p.uri,
            );
            let n = ps.len();
            let mut out: Vec<CopyOp> = Vec::new();
            let mut i: usize = 0;
            proof {
                assert(views_of(out@) =~= psv.subrange(0, 0).map_values(op_of));
            }
            while i < n
                invariant
                    i <= n,
                    n == ps@.len(),
                    psv == views_of(ps@),
                    m@.photos == Some(psv),
                    op_of == (|p: PhotoV| spec_copy_op(
                        user@,
                        p.creation_timestamp->0 as int,
                        p.uri,
                    )),
                    forall|j: int| 0 <= j < i ==> photo_ok(#[trigger] psv[j]),
                    views_of(out@) == psv.subrange(0, i as int).map_values(op_of),
                decreases n - i,
            {
                proof {
                    assert(psv[i as int] == ps@[i as int]@);
                }
                match ps[i].creation_timestamp {
                    None => {
                        proof {
                            assert(!photo_ok(psv[i as int]));
                        }
                        return None;
                    },
                    Some(ts) => {
                        if ts > MAX_TS_SECONDS {
                            proof {
                                assert(!photo_ok(psv[i as int]));
                            }
                            return None;
                        }
                        let op = build_copy_op(user, ts, ps[i].uri.as_str());
                        let ghost out0 = out@;
                        out.push(op);
                        proof {
                            assert(views_of(out@) =~= views_of(out0).push(op@));
                            assert(psv.subrange(0, i as int + 1) =~= psv.subrange(
                                0,
                                i as int,
                            ).push(psv[i as int]));
                            assert(psv.subrange(0, i as int + 1).map_values(op_of)
                                =~= psv.subrange(0, i as int).map_values(op_of).push(
                                op_of(psv[i as int]),
                            ));
                        }
                    },
                }
                i += 1;
            }
            proof {
                assert(psv.subrange(0, n as int) =~= psv);
            }
            Some(out)
        },
    }
}

fn video_ops_for_msg(m: &Message, user: &str) -> (r: Option<Vec<CopyOp>>)
    ensures
        match r {
            Some(v) => video_ops_of_msg(m@, user@) == Some(views_of(v@)),
            None => video_ops_of_msg(m@, user@) is None,
        },
{
    match &m.videos {
        None => {
            let out: Vec<CopyOp> = Vec::new();
            proof {
                assert(views_of(out@) =~= Seq::<CopyOpV>::empty());
            }
            Some(out)
        },
        Some(vs) => {
            let ghost vsv = views_of(vs@);
            let ghost op_of = |v: VideoV| spec_copy_op(user@, v.creation_timestamp as int, v.uri);
            let n = vs.len();
            let mut out: Vec<CopyOp> = Vec::new();
            let mut i: usize = 0;
            proof {
                assert(views_of(out@) =~= vsv.subrange(0, 0).map_values(op_of));
            }
            while i < n
                invariant
                    i <= n,
                    n == vs@.len(),
                    vsv == views_of(vs@),
                    m@.videos == Some(vsv),
                    op_of == (|v: VideoV| spec_copy_op(user@, v.creation_timestamp as int, v.uri)),
                    forall|j: int| 0 <= j < i ==> video_ok(#[trigger] vsv[j]),
                    views_of(out@) == vsv.subrange(0, i as int).map_values(op_of),
                decreases n - i,
            {
                proof {
                    assert(vsv[i as int] == vs@[i as int]@);
                }
                let ts = vs[i].creation_timestamp;
                if ts > MAX_TS_SECONDS {
                    proof {
                        assert(!video_ok(vsv[i as int]));
                    }
                    return None;
                }
                let op = build_copy_op(user, ts, vs[i].uri.as_str());
                let ghost out0 = out@;
                out.push(op);
                proof {
                    assert(views_of(out@) =~= views_of(out0).push(op@));
                    assert(vsv.subrange(0, i as int + 1) =~= vsv.subrange(0, i as int).push(
                        vsv[i as int],
                    ));
                    assert(vsv.subrange(0, i as int + 1).map_values(op_of) =~= vsv.subrange(
                        0,
                        i as int,
                    ).map_values(op_of).push(op_of(vsv[i as int])));
                }
                i += 1;
            }
            proof {
                assert(vsv.subrange(0, n as int) =~= vsv);
            }
            Some(out)
        },
    }
}

/// Plan the photo relocation over the whole corpus.  A photo with no
/// creation timestamp (or one beyond the formattable range) is an explicit
/// unsupported condition: the plan reports it and nothing is copied.
pub fn plan_reorg_images(messages: &Vec<Message>, user: &str) -> (r: Result<Vec<CopyOp>, MagicError>)
    ensures
        match r {
            Ok(v) => spec_photo_plan(views_of(messages@), user@) == Some(views_of(v@)),
            Err(e) => spec_photo_plan(views_of(messages@), user@) is None && e is Generic,
        },
{
    let ghost all = views_of(messages@);
    let n = messages.len();
    let mut out: Vec<CopyOp> = Vec::new();
    let mut i: usize = 0;
    proof {
        assert(all.skip(0) =~= all);
        assert(views_of(out@) =~= Seq::<CopyOpV>::empty());
    }
    while i < n
        invariant
            i <= n,
            n == messages@.len(),
            all == views_of(messages@),
            all.len() == n,
            match spec_photo_plan(all.skip(i as int), user@) {
                Some(rest) => spec_photo_plan(all, user@) == Some(views_of(out@) + rest),
                None => spec_photo_plan(all, user@) is None,
            },
        decreases n - i,
    {
        proof {
            assert(all.skip(i as int)[0] == all[i as int]);
            assert(all[i as int] == messages@[i as int]@);
            assert(all.skip(i as int).drop_first() =~= all.skip(i as int + 1));
        }
        match photo_ops_for_msg(&messages[i], user) {
            None => {
                return Err(
                    MagicError::Generic(
                        String::from_str("unsupported: photo without a usable creation timestamp"),
                    ),
                );
            },
            Some(mut ops) => {
                let ghost out0 = out@;
                let ghost opsv = views_of(ops@);
                out.append(&mut ops);
                proof {
                    assert(views_of(out@) =~= views_of(out0) + opsv);
                    if spec_photo_plan(all.skip(i as int + 1), user@) is Some {
                        let rest = spec_photo_plan(all.skip(i as int + 1), user@)->0;
                        assert(views_of(out0) + (opsv + rest) =~= views_of(out@) + rest);
                    }
                }
            },
        }
        i += 1;
    }
    proof {
        assert(all.skip(n as int).len() == 0);
        if spec_photo_plan(all, user@) is Some {
            assert(views_of(out@) + Seq::<CopyOpV>::empty() =~= views_of(out@));
        }
    }
    Ok(out)
}

/// Plan the video relocation over the whole corpus.  Every video carries a
/// timestamp, so only one beyond the formattable range blocks the plan.
pub fn plan_reorg_videos(messages: &Vec<Message>, user: &str) -> (r: Result<Vec<CopyOp>, MagicError>)
    ensures
        match r {
            Ok(v) => spec_video_plan(views_of(messages@), user@) == Some(views_of(v@)),
            Err(e) => spec_video_plan(views_of(messages@), user@) is None && e is Generic,
        },
{
    let ghost all = views_of(messages@);
    let n = messages.len();
    let mut out: Vec<CopyOp> = Vec::new();
    let mut i: usize = 0;
    proof {
        assert(all.skip(0) =~= all);
        assert(views_of(out@) =~= Seq::<CopyOpV>::empty());
    }
    while i < n
        invariant
            i <= n,
            n == messages@.len(),
            all == views_of(messages@),
            all.len() == n,
            match spec_video_plan(all.skip(i as int), user@) {
                Some(rest) => spec_video_plan(all, user@) == Some(views_of(out@) + rest),
                None => spec_video_plan(all, user@) is None,
            },
        decreases n - i,
    {
        proof {
            assert(all.skip(i as int)[0] == all[i as int]);
            assert(all[i as int] == messages@[i as int]@);
            assert(all.skip(i as int).drop_first() =~= all.skip(i as int + 1));
        }
        match video_ops_for_msg(&messages[i], user) {
            None => {
                return Err(
                    MagicError::Generic(
                        String::from_str("unsupported: video timestamp out of range"),
                    ),
                );
            },
            Some(mut ops) => {
                let ghost out0 = out@;
                let ghost opsv = views_of(ops@);
                out.append(&mut ops);
                proof {
                    assert(views_of(out@) =~= views_of(out0) + opsv);
                    if spec_video_plan(all.skip(i as int + 1), user@) is Some {
                        let rest = spec_video_plan(all.skip(i as int + 1), user@)->0;
                        assert(views_of(out0) + (opsv + rest) =~= views_of(out@) + rest);
                    }
                }
            },
        }
        i += 1;
    }
    proof {
        assert(all.skip(n as int).len() == 0);
        if spec_video_plan(all, user@) is Some {
            assert(views_of(out@) + Seq::<CopyOpV>::empty() =~= views_of(out@));
        }
    }
    Ok(out)
}

// ----------------------------------------------------------------------------
// The lister.
// ----------------------------------------------------------------------------

pub open spec fn files_of(m: MessageV) -> Seq<crate::messages::FileV> {
    match m.files {
        None => Seq::empty(),
        Some(fs) => fs,
    }
}

/// Every file attachment of the corpus, in corpus order.
pub open spec fn spec_all_files(msgs: Seq<MessageV>) -> Seq<crate::messages::FileV>
    decreases msgs.len(),
{
    if msgs.len() == 0 {
        Seq::empty()
    } else {
        files_of(msgs[0]) + spec_all_files(msgs.drop_first())
    }
}

fn clone_file(f: &MessageFile) -> (r: MessageFile)
    ensures
        r@ == f@,
{
    MessageFile {
        uri: f.uri.clone(),
        creation_timestamp: f.creation_timestamp,
        title: (match &f.title {
            Some(t) => Some(t.clone()),
            None => None,
        }),
    }
}

/// Emit every message's file attachments, in corpus order.
pub fn list_files(messages: &Vec<Message>) -> (r: Vec<MessageFile>)
    ensures
        views_of(r@) == spec_all_files(views_of(messages@)),
{
    let ghost all = views_of(messages@);
    let n = messages.len();
    let mut out: Vec<MessageFile> = Vec::new();
    let mut i: usize = 0;
    proof {
        assert(all.skip(0) =~= all);
        assert(views_of(out@) =~= Seq::<crate::messages::FileV>::empty());
    }
    while i < n
        invariant
            i <= n,
            n == messages@.len(),
            all == views_of(messages@),
            all.len() == n,
            spec_all_files(all) == views_of(out@) + spec_all_files(all.skip(i as int)),
        decreases n - i,
    {
        proof {
            assert(all.skip(i as int)[0] == all[i as int]);
            assert(all[i as int] == messages@[i as int]@);
            assert(all.skip(i as int).drop_first() =~= all.skip(i as int + 1));
        }
        match &messages[i].files {
            None => {
                proof {
                    assert(files_of(all[i as int]) =~= Seq::<crate::messages::FileV>::empty());
                    assert(views_of(out@) + (Seq::<crate::messages::FileV>::empty()
                        + spec_all_files(all.skip(i as int + 1))) =~= views_of(out@)
                        + spec_all_files(all.skip(i as int + 1)));
                }
            },
            Some(fs) => {
                let m = fs.len();
                let mut k: usize = 0;
                let ghost out_before = out@;
                while k < m
                    invariant
                        k <= m,
                        m == fs@.len(),
                        views_of(out@) == views_of(out_before) + views_of(fs@).subrange(
                            0,
                            k as int,
                        ),
                    decreases m - k,
                {
                    let ghost out0 = out@;
                    out.push(clone_file(&fs[k]));
                    proof {
                        assert(views_of(out@) =~= views_of(out0).push(fs@[k as int]@));
                        assert(views_of(fs@).subrange(0, k as int + 1) =~= views_of(
                            fs@,
                        ).subrange(0, k as int).push(views_of(fs@)[k as int]));
                    }
                    k += 1;
                }
                proof {
                    assert(views_of(fs@).subrange(0, m as int) =~= views_of(fs@));
                    assert(files_of(all[i as int]) == views_of(fs@));
                    assert(views_of(out_before) + (views_of(fs@) + spec_all_files(
                        all.skip(i as int + 1),
                    )) =~= views_of(out@) + spec_all_files(all.skip(i as int + 1)));
                }
            },
        }
        i += 1;
    }
    proof {
        assert(spec_all_files(all.skip(n as int)) =~= Seq::<crate::messages::FileV>::empty());
        assert(views_of(out@) + Seq::<crate::messages::FileV>::empty() =~= views_of(out@));
    }
    out
}

} // verus!
