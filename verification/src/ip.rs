//! Textual IP addresses.  The schema types a message's `ip` field as an
//! optional IP address, version 4 or 6, so the parser must reject any string
//! that is neither.  The grammar here is the standard textual form: a
//! dotted quad of decimal octets without leading zeros, or colon-separated
//! hexadecimal groups with at most one `::` run standing for one or more
//! zero groups, optionally ending in an embedded dotted quad.
use vstd::prelude::*;
use vstd::string::StrSliceExecFns;

verus! {

pub open spec fn is_dec_digit(c: char) -> bool {
    '0' <= c && c <= '9'
}

pub open spec fn dec_val(c: char) -> int {
    c as int - '0' as int
}

pub open spec fn is_hex_digit(c: char) -> bool {
    is_dec_digit(c) || ('a' <= c && c <= 'f') || ('A' <= c && c <= 'F')
}

/// The index of the first `c` in `s`, or -1.
pub open spec fn find_char(s: Seq<char>, c: char) -> int
    decreases s.len(),
{
    if s.len() == 0 {
        -1
    } else if s[0] == c {
        0
    } else {
        let r = find_char(s.drop_first(), c);
        if r < 0 {
            -1
        } else {
            r + 1
        }
    }
}

/// The index of the first `::` in `s`, or -1.
pub open spec fn find_double_colon(s: Seq<char>) -> int
    decreases s.len(),
{
    if s.len() < 2 {
        -1
    } else if s[0] == ':' && s[1] == ':' {
        0
    } else {
        let r = find_double_colon(s.drop_first());
        if r < 0 {
            -1
        } else {
            r + 1
        }
    }
}

proof fn lemma_find_char_range(s: Seq<char>, c: char)
    ensures
        -1 <= find_char(s, c) < s.len(),
        find_char(s, c) >= 0 ==> s[find_char(s, c)] == c,
        find_char(s, c) == -1 ==> forall|j: int| 0 <= j < s.len() ==> s[j] != c,
    decreases s.len(),
{
    if s.len() > 0 && s[0] != c {
        lemma_find_char_range(s.drop_first(), c);
        if find_char(s.drop_first(), c) == -1 {
            assert forall|j: int| 0 <= j < s.len() implies s[j] != c by {
                if j > 0 {
                    assert(s[j] == s.drop_first()[j - 1]);
                }
            }
        }
    }
}

proof fn lemma_find_char_hit(s: Seq<char>, c: char, i: int)
    requires
        0 <= i < s.len(),
        s[i] == c,
        forall|j: int| 0 <= j < i ==> s[j] != c,
    ensures
        find_char(s, c) == i,
    decreases i,
{
    if i > 0 {
        assert(s[0] != c);
        assert(s.drop_first()[i - 1] == s[i]);
        assert forall|j: int| 0 <= j < i - 1 implies s.drop_first()[j] != c by {
            assert(s.drop_first()[j] == s[j + 1]);
        }
        lemma_find_char_hit(s.drop_first(), c, i - 1);
    }
}

proof fn lemma_find_char_miss(s: Seq<char>, c: char)
    requires
        forall|j: int| 0 <= j < s.len() ==> s[j] != c,
    ensures
        find_char(s, c) == -1,
    decreases s.len(),
{
    if s.len() > 0 {
        assert forall|j: int| 0 <= j < s.drop_first().len() implies s.drop_first()[j] != c by {
            assert(s.drop_first()[j] == s[j + 1]);
        }
        lemma_find_char_miss(s.drop_first(), c);
    }
}

proof fn lemma_find_dc_hit(s: Seq<char>, i: int)
    requires
        0 <= i,
        i + 1 < s.len(),
        s[i] == ':',
        s[i + 1] == ':',
        forall|j: int| 0 <= j < i ==> !((#[trigger] s[j]) == ':' && s[j + 1] == ':'),
    ensures
        find_double_colon(s) == i,
    decreases i,
{
    if i > 0 {
        assert(!(s[0] == ':' && s[1] == ':'));
        assert(s.drop_first()[i - 1] == s[i]);
        assert(s.drop_first()[i] == s[i + 1]);
        assert forall|j: int| 0 <= j < i - 1 implies !((#[trigger] s.drop_first()[j]) == ':'
            && s.drop_first()[j + 1] == ':') by {
            assert(s.drop_first()[j] == s[j + 1]);
            assert(s.drop_first()[j + 1] == s[j + 2]);
        }
        lemma_find_dc_hit(s.drop_first(), i - 1);
    }
}

proof fn lemma_find_dc_miss(s: Seq<char>)
    requires
        forall|j: int| 0 <= j && j + 1 < s.len() ==> !((#[trigger] s[j]) == ':' && s[j + 1] == ':'),
    ensures
        find_double_colon(s) == -1,
    decreases s.len(),
{
    if s.len() >= 2 {
        assert(!(s[0] == ':' && s[1] == ':'));
        assert forall|j: int| 0 <= j && j + 1 < s.drop_first().len() implies !((#[trigger] s.drop_first()[j])
            == ':' && s.drop_first()[j + 1] == ':') by {
            assert(s.drop_first()[j] == s[j + 1]);
            assert(s.drop_first()[j + 1] == s[j + 2]);
        }
        lemma_find_dc_miss(s.drop_first());
    }
}

/// The first `c` of `s`, if any.
fn find_char_at(s: &str, c: char) -> (r: Option<usize>)
    ensures
        match r {
            Some(i) => find_char(s@, c) == i && i < s@.len() && s@[i as int] == c,
            None => find_char(s@, c) == -1,
        },
{
    let n = s.unicode_len();
    let mut i: usize = 0;
    while i < n
        invariant
            i <= n,
            n == s@.len(),
            forall|j: int| 0 <= j < i ==> s@[j] != c,
        decreases n - i,
    {
        if s.get_char(i) == c {
            proof {
                lemma_find_char_hit(s@, c, i as int);
            }
            return Some(i);
        }
        i += 1;
    }
    proof {
        lemma_find_char_miss(s@, c);
    }
    None
}

/// The first `::` of `s`, if any.
fn find_double_colon_at(s: &str) -> (r: Option<usize>)
    ensures
        match r {
            Some(i) => find_double_colon(s@) == i && i + 1 < s@.len(),
            None => find_double_colon(s@) == -1,
        },
{
    let n = s.unicode_len();
    if n < 2 {
        return None;
    }
    let mut i: usize = 0;
    while i + 1 < n
        invariant
            i + 1 <= n,
            n == s@.len(),
            n >= 2,
            forall|j: int| 0 <= j < i ==> !((#[trigger] s@[j]) == ':' && s@[j + 1] == ':'),
        decreases n - i,
    {
        if s.get_char(i) == ':' && s.get_char(i + 1) == ':' {
            proof {
                lemma_find_dc_hit(s@, i as int);
            }
            return Some(i);
        }
        i += 1;
    }
    proof {
        lemma_find_dc_miss(s@);
    }
    None
}

// ----------------------------------------------------------------------------
// Version 4.
// ----------------------------------------------------------------------------

/// One decimal octet: one to three digits, no leading zero, value at most
/// 255.
pub open spec fn octet_ok(t: Seq<char>) -> bool {
    &&& 1 <= t.len() <= 3
    &&& (forall|k: int| 0 <= k < t.len() ==> is_dec_digit(#[trigger] t[k]))
    &&& (t.len() > 1 ==> t[0] != '0')
    &&& octet_val(t) <= 255
}

pub open spec fn octet_val(t: Seq<char>) -> int {
    if t.len() == 1 {
        dec_val(t[0])
    } else if t.len() == 2 {
        10 * dec_val(t[0]) + dec_val(t[1])
    } else {
        100 * dec_val(t[0]) + 10 * dec_val(t[1]) + dec_val(t[2])
    }
}

/// `parts` dot-separated octets.
pub open spec fn v4_parts(s: Seq<char>, parts: int) -> bool
    decreases parts,
{
    if parts <= 1 {
        octet_ok(s)
    } else {
        let i = find_char(s, '.');
        &&& i >= 0
        &&& octet_ok(s.subrange(0, i))
        &&& v4_parts(s.subrange(i + 1, s.len() as int), parts - 1)
    }
}

/// A dotted-quad version-4 address.
pub open spec fn spec_is_ipv4(s: Seq<char>) -> bool {
    v4_parts(s, 4)
}

fn check_octet(t: &str) -> (r: bool)
    ensures
        r == octet_ok(t@),
{
    let n = t.unicode_len();
    if n < 1 || n > 3 {
        return false;
    }
    let mut k: usize = 0;
    while k < n
        invariant
            k <= n,
            n == t@.len(),
            forall|j: int| 0 <= j < k ==> is_dec_digit(#[trigger] t@[j]),
        decreases n - k,
    {
        let c = t.get_char(k);
        if !('0' <= c && c <= '9') {
            return false;
        }
        k += 1;
    }
    if n > 1 && t.get_char(0) == '0' {
        return false;
    }
    let v: u32 = if n == 1 {
        t.get_char(0) as u32 - 48
    } else if n == 2 {
        10 * (t.get_char(0) as u32 - 48) + (t.get_char(1) as u32 - 48)
    } else {
        100 * (t.get_char(0) as u32 - 48) + 10 * (t.get_char(1) as u32 - 48) + (t.get_char(2)
            as u32 - 48)
    };
    proof {
        assert(v == octet_val(t@));
    }
    v <= 255
}

fn check_v4_parts(s: &str, parts: u32) -> (r: bool)
    requires
        1 <= parts <= 4,
    ensures
        r == v4_parts(s@, parts as int),
    decreases parts,
{
    if parts == 1 {
        return check_octet(s);
    }
    match find_char_at(s, '.') {
        None => false,
        Some(i) => {
            let n = s.unicode_len();
            if !check_octet(s.substring_char(0, i)) {
                return false;
            }
            check_v4_parts(s.substring_char(i + 1, n), parts - 1)
        },
    }
}

/// Whether the text is a dotted-quad version-4 address.
pub fn is_ipv4_str(s: &str) -> (r: bool)
    ensures
        r == spec_is_ipv4(s@),
{
    check_v4_parts(s, 4)
}

// ----------------------------------------------------------------------------
// Version 6.
// ----------------------------------------------------------------------------

/// One hexadecimal group of one to four digits.
pub open spec fn hex_group_ok(t: Seq<char>) -> bool {
    1 <= t.len() <= 4 && (forall|k: int| 0 <= k < t.len() ==> is_hex_digit(#[trigger] t[k]))
}

/// The group slots a colon-separated list fills: one per hexadecimal group,
/// two for a trailing embedded dotted quad; nothing where any piece is
/// malformed.
pub open spec fn group_slots(t: Seq<char>, allow_v4: bool) -> Option<int>
    decreases t.len(),
{
    let i = find_char(t, ':');
    if !(0 <= i && i < t.len()) {
        if hex_group_ok(t) {
            Some(1)
        } else if allow_v4 && spec_is_ipv4(t) {
            Some(2)
        } else {
            None
        }
    } else {
        if !hex_group_ok(t.subrange(0, i)) {
            None
        } else {
            match group_slots(t.subrange(i + 1, t.len() as int), allow_v4) {
                None => None,
                Some(k) => Some(k + 1),
            }
        }
    }
}

proof fn lemma_group_slots_bound(t: Seq<char>, allow_v4: bool)
    ensures
        group_slots(t, allow_v4) matches Some(k) ==> 1 <= k <= t.len() + 1,
    decreases t.len(),
{
    let i = find_char(t, ':');
    lemma_find_char_range(t, ':');
    if i >= 0 {
        lemma_group_slots_bound(t.subrange(i + 1, t.len() as int), allow_v4);
    }
}

/// A version-6 address: eight group slots of colon-separated hexadecimal
/// groups, or fewer with one `::` standing for the missing, at least one,
/// zero groups; an embedded dotted quad may fill the last two slots.
pub open spec fn spec_is_ipv6(s: Seq<char>) -> bool {
    let dc = find_double_colon(s);
    if dc < 0 {
        group_slots(s, true) == Some(8int)
    } else {
        let head = s.subrange(0, dc);
        let tail = s.subrange(dc + 2, s.len() as int);
        let h = if head.len() == 0 {
            Some(0int)
        } else {
            group_slots(head, false)
        };
        let t = if tail.len() == 0 {
            Some(0int)
        } else {
            group_slots(tail, true)
        };
        h is Some && t is Some && h->0 + t->0 <= 7
    }
}

pub open spec fn spec_is_ip(s: Seq<char>) -> bool {
    spec_is_ipv4(s) || spec_is_ipv6(s)
}

fn check_hex_group(t: &str) -> (r: bool)
    ensures
        r == hex_group_ok(t@),
{
    let n = t.unicode_len();
    if n < 1 || n > 4 {
        return false;
    }
    let mut k: usize = 0;
    while k < n
        invariant
            k <= n,
            n == t@.len(),
            forall|j: int| 0 <= j < k ==> is_hex_digit(#[trigger] t@[j]),
        decreases n - k,
    {
        let c = t.get_char(k);
        if !(('0' <= c && c <= '9') || ('a' <= c && c <= 'f') || ('A' <= c && c <= 'F')) {
            return false;
        }
        k += 1;
    }
    true
}

fn check_group_slots(s: &str, allow_v4: bool) -> (r: Option<usize>)
    ensures
        match r {
            Some(k) => group_slots(s@, allow_v4) == Some(k as int),
            None => group_slots(s@, allow_v4) is None,
        },
    decreases s@.len(),
{
    match find_char_at(s, ':') {
        None => {
            if check_hex_group(s) {
                Some(1)
            } else if allow_v4 && is_ipv4_str(s) {
                Some(2)
            } else {
                None
            }
        },
        Some(i) => {
            let n = s.unicode_len();
            if !check_hex_group(s.substring_char(0, i)) {
                return None;
            }
            let rest = s.substring_char(i + 1, n);
            proof {
                lemma_group_slots_bound(rest@, allow_v4);
            }
            match check_group_slots(rest, allow_v4) {
                None => None,
                Some(k) => Some(k + 1),
            }
        },
    }
}

/// Whether the text is a version-6 address.
pub fn is_ipv6_str(s: &str) -> (r: bool)
    ensures
        r == spec_is_ipv6(s@),
{
    let n = s.unicode_len();
    match find_double_colon_at(s) {
        None => match check_group_slots(s, true) {
            Some(k) => k == 8,
            None => false,
        },
        Some(dc) => {
            let h: Option<usize> = if dc == 0 {
                Some(0)
            } else {
                check_group_slots(s.substring_char(0, dc), false)
            };
            let t: Option<usize> = if dc + 2 == n {
                Some(0)
            } else {
                check_group_slots(s.substring_char(dc + 2, n), true)
            };
            match (h, t) {
                (Some(hk), Some(tk)) => hk <= 7 && tk <= 7 - hk,
                _ => false,
            }
        },
    }
}

/// Whether the text is an IP address, version 4 or 6.
pub fn is_ip_str(s: &str) -> (r: bool)
    ensures
        r == spec_is_ip(s@),
{
    if is_ipv4_str(s) {
        true
    } else {
        is_ipv6_str(s)
    }
}

} // verus!
