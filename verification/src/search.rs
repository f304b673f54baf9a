//! Content search over the aggregated corpus: a mutable filter set (time
//! bounds, substring, pattern) and one pure evaluation pass.  Every set
//! condition must hold for a message to match; unset conditions hold
//! vacuously.
use vstd::prelude::*;
use vstd::string::StrSliceExecFns;

use crate::messages::{views_of, Message, MessageV};

verus! {

// ----------------------------------------------------------------------------
// Substring containment.
// ----------------------------------------------------------------------------

/// `needle` occurs contiguously somewhere in `hay`.
pub open spec fn contains_sub(hay: Seq<char>, needle: Seq<char>) -> bool {
    exists|i: int|
        0 <= i && i + needle.len() <= hay.len() && #[trigger] hay.subrange(i, i + needle.len())
            == needle
}

/// Whether `needle` occurs contiguously in `hay`.
pub fn contains_str(hay: &str, needle: &str) -> (r: bool)
    ensures
        r == contains_sub(hay@, needle@),
{
    let hn = hay.unicode_len();
    let nn = needle.unicode_len();
    if nn > hn {
        return false;
    }
    if nn == 0 {
        proof {
            assert(hay@.subrange(0, 0 + needle@.len() as int) =~= needle@);
        }
        return true;
    }
    let mut i: usize = 0;
    while i <= hn - nn
        invariant
            1 <= nn <= hn,
            hn == hay@.len(),
            nn == needle@.len(),
            i <= hn - nn + 1,
            forall|p: int| 0 <= p < i ==> #[trigger] hay@.subrange(p, p + needle@.len()) != needle@,
        decreases hn - nn - i + 1,
    {
        let mut k: usize = 0;
        let mut same = true;
        while same && k < nn
            invariant
                i + nn <= hn,
                hn == hay@.len(),
                nn == needle@.len(),
                k <= nn,
                same ==> forall|q: int| 0 <= q < k ==> hay@[i + q] == needle@[q],
                !same ==> hay@.subrange(i as int, i + needle@.len()) != needle@,
            decreases nn - k + (if same { 1int } else { 0int }),
        {
            if hay.get_char(i + k) != needle.get_char(k) {
                proof {
                    assert(hay@.subrange(i as int, i + needle@.len())[k as int] == hay@[i + k]);
                }
                same = false;
            } else {
                k += 1;
            }
        }
        if same {
            proof {
                assert(hay@.subrange(i as int, i + needle@.len()) =~= needle@);
            }
            return true;
        }
        i += 1;
    }
    proof {
        assert forall|p: int| !(0 <= p && p + needle@.len() <= hay@.len() && #[trigger] hay@.subrange(
            p,
            p + needle@.len(),
        ) == needle@) by {
            if 0 <= p && p + needle@.len() <= hay@.len() {
                assert(p < i);
            }
        }
    }
    false
}

// ----------------------------------------------------------------------------
// The outside helpers: regular expressions and RFC 3339 date-times.
// ----------------------------------------------------------------------------

/// Whether the pattern is a valid regular expression.  Stated nowhere: the
/// regex engine alone decides.
pub uninterp spec fn regex_valid(pat: Seq<char>) -> bool;

/// Whether the pattern matches anywhere in the text.  Stated nowhere: the
/// regex engine alone decides; it depends on pattern and text alone.
pub uninterp spec fn regex_matches(pat: Seq<char>, text: Seq<char>) -> bool;

/// Relies on regex::Regex::new and regex::Regex::is_match: compiles the
/// pattern and tests it against the text; fails exactly where the pattern is
/// invalid.
#[verifier::external_body]
pub(crate) fn try_match(pattern: &str, text: &str) -> (r: Option<bool>)
    ensures
        r is Some <==> regex_valid(pattern@),
        (match r {
            Some(b) => b == regex_matches(pattern@, text@),
            None => true,
        }),
{
    match regex::Regex::new(pattern) {
        Ok(re) => Some(re.is_match(text)),
        Err(_) => None,
    }
}

/// The epoch milliseconds of the instant an RFC 3339 date-time denotes, or
/// nothing where the text is not one.  Stated nowhere: the date-time library
/// alone computes it; it depends on the text alone.
pub uninterp spec fn rfc3339_ms(s: Seq<char>) -> Option<i64>;

/// Relies on chrono::DateTime::parse_from_rfc3339 and
/// chrono::DateTime::timestamp_millis: parses the text as an RFC 3339
/// date-time and takes its epoch milliseconds.
#[verifier::external_body]
pub(crate) fn parse_rfc3339_ms(s: &str) -> (r: Option<i64>)
    ensures
        r == rfc3339_ms(s@),
{
    match chrono::DateTime::parse_from_rfc3339(s) {
        Ok(dt) => Some(dt.timestamp_millis()),
        Err(_) => None,
    }
}

// ----------------------------------------------------------------------------
// The filter set.
// ----------------------------------------------------------------------------

pub open spec fn is_space_char(c: char) -> bool {
    c == ' ' || c == '\t' || c == '\n' || c == '\r'
}

/// Nothing in the text but whitespace.
pub open spec fn is_blank(s: Seq<char>) -> bool {
    forall|k: int| 0 <= k < s.len() ==> is_space_char(#[trigger] s[k])
}

/// Whether the text holds nothing but whitespace.
pub fn check_blank(s: &str) -> (r: bool)
    ensures
        r == is_blank(s@),
{
    let n = s.unicode_len();
    let mut i: usize = 0;
    while i < n
        invariant
            i <= n,
            n == s@.len(),
            forall|k: int| 0 <= k < i ==> is_space_char(#[trigger] s@[k]),
        decreases n - i,
    {
        let c = s.get_char(i);
        if !(c == ' ' || c == '\t' || c == '\n' || c == '\r') {
            return false;
        }
        i += 1;
    }
    true
}

/// The mutable filter set of one search session.  Bounds are inclusive epoch
/// milliseconds; the pattern is kept as its text and compiled on use.
#[derive(Debug)]
pub struct SearchTerms {
    pub earliest: Option<u64>,
    pub latest: Option<u64>,
    pub string: Option<String>,
    pub regex: Option<String>,
}

pub struct TermsV {
    pub earliest: Option<u64>,
    pub latest: Option<u64>,
    pub string: Option<Seq<char>>,
    pub regex: Option<Seq<char>>,
}

impl View for SearchTerms {
    type V = TermsV;

    open spec fn view(&self) -> TermsV {
        TermsV {
            earliest: self.earliest,
            latest: self.latest,
            string: crate::messages::view_opt_str(self.string),
            regex: crate::messages::view_opt_str(self.regex),
        }
    }
}

impl Default for SearchTerms {
    /// An empty filter set: every condition unset.
    fn default() -> (r: Self)
        ensures
            r@ == (TermsV { earliest: None, latest: None, string: None, regex: None }),
    {
        SearchTerms { earliest: None, latest: None, string: None, regex: None }
    }
}

impl SearchTerms {
    /// Set the earliest bound from a date-time text.  Succeeds exactly on an
    /// RFC 3339 date-time no earlier than the epoch; otherwise nothing
    /// changes.
    pub fn set_earliest_from_text(&mut self, s: &str) -> (ok: bool)
        ensures
            ok == (rfc3339_ms(s@) matches Some(ms) && ms >= 0),
            ok ==> final(self)@ == (TermsV {
                earliest: Some(rfc3339_ms(s@)->0 as u64),
                ..old(self)@
            }),
            !ok ==> final(self)@ == old(self)@,
    {
        match parse_rfc3339_ms(s) {
            Some(ms) => if ms >= 0 {
                self.earliest = Some(ms as u64);
                true
            } else {
                false
            },
            None => false,
        }
    }

    pub fn clear_earliest(&mut self)
        ensures
            final(self)@ == (TermsV { earliest: None, ..old(self)@ }),
    {
        self.earliest = None;
    }

    /// Set the latest bound from a date-time text, as for the earliest bound.
    pub fn set_latest_from_text(&mut self, s: &str) -> (ok: bool)
        ensures
            ok == (rfc3339_ms(s@) matches Some(ms) && ms >= 0),
            ok ==> final(self)@ == (TermsV {
                latest: Some(rfc3339_ms(s@)->0 as u64),
                ..old(self)@
            }),
            !ok ==> final(self)@ == old(self)@,
    {
        match parse_rfc3339_ms(s) {
            Some(ms) => if ms >= 0 {
                self.latest = Some(ms as u64);
                true
            } else {
                false
            },
            None => false,
        }
    }

    pub fn clear_latest(&mut self)
        ensures
            final(self)@ == (TermsV { latest: None, ..old(self)@ }),
    {
        self.latest = None;
    }

    /// Set the required substring.  A blank text is rejected and nothing
    /// changes.
    pub fn set_string(&mut self, s: String) -> (ok: bool)
        ensures
            ok == !is_blank(s@),
            ok ==> final(self)@ == (TermsV { string: Some(s@), ..old(self)@ }),
            !ok ==> final(self)@ == old(self)@,
    {
        if check_blank(s.as_str()) {
            false
        } else {
            self.string = Some(s);
            true
        }
    }

    pub fn clear_string(&mut self)
        ensures
            final(self)@ == (TermsV { string: None, ..old(self)@ }),
    {
        self.string = None;
    }

    /// Set the required pattern.  A blank or invalid pattern is rejected and
    /// nothing changes.
    pub fn set_regex(&mut self, s: String) -> (ok: bool)
        ensures
            ok == (!is_blank(s@) && regex_valid(s@)),
            ok ==> final(self)@ == (TermsV { regex: Some(s@), ..old(self)@ }),
            !ok ==> final(self)@ == old(self)@,
    {
        if check_blank(s.as_str()) {
            return false;
        }
        match try_match(s.as_str(), "") {
            None => false,
            Some(_) => {
                self.regex = Some(s);
                true
            },
        }
    }

    pub fn clear_regex(&mut self)
        ensures
            final(self)@ == (TermsV { regex: None, ..old(self)@ }),
    {
        self.regex = None;
    }
}

// ----------------------------------------------------------------------------
// The interactive menu's choices.  The terminal loop itself is an outside
// collaborator; here stand the choices and their meaning.
// ----------------------------------------------------------------------------

#[derive(Debug, PartialEq, Eq, Structural)]
pub enum SearchMenu {
    SetEarliest,
    ClearEarliest,
    SetLatest,
    ClearLatest,
    SetString,
    ClearString,
    SetRegex,
    ClearRegex,
    Run,
    Quit,
}

impl SearchMenu {
    pub open spec fn spec_label(&self) -> Seq<char> {
        match self {
            SearchMenu::SetEarliest => "Set Earliest Date"@,
            SearchMenu::ClearEarliest => "Clear Earliest Date"@,
            SearchMenu::SetLatest => "Set Latest Date"@,
            SearchMenu::ClearLatest => "Clear Latest Date"@,
            SearchMenu::SetString => "Set Search String"@,
            SearchMenu::ClearString => "Clear Search String"@,
            SearchMenu::SetRegex => "Set Search Regex"@,
            SearchMenu::ClearRegex => "Clear Search Regex"@,
            SearchMenu::Run => "Run"@,
            SearchMenu::Quit => "Quit"@,
        }
    }

    /// The label the menu shows for this choice.
    pub fn label(&self) -> (r: &'static str)
        ensures
            r@ == self.spec_label(),
    {
        match self {
            SearchMenu::SetEarliest => "Set Earliest Date",
            SearchMenu::ClearEarliest => "Clear Earliest Date",
            SearchMenu::SetLatest => "Set Latest Date",
            SearchMenu::ClearLatest => "Clear Latest Date",
            SearchMenu::SetString => "Set Search String",
            SearchMenu::ClearString => "Clear Search String",
            SearchMenu::SetRegex => "Set Search Regex",
            SearchMenu::ClearRegex => "Clear Search Regex",
            SearchMenu::Run => "Run",
            SearchMenu::Quit => "Quit",
        }
    }

    pub open spec fn spec_at(v: int) -> SearchMenu {
        if v == 0 {
            SearchMenu::SetEarliest
        } else if v == 1 {
            SearchMenu::ClearEarliest
        } else if v == 2 {
            SearchMenu::SetLatest
        } else if v == 3 {
            SearchMenu::ClearLatest
        } else if v == 4 {
            SearchMenu::SetString
        } else if v == 5 {
            SearchMenu::ClearString
        } else if v == 6 {
            SearchMenu::SetRegex
        } else if v == 7 {
            SearchMenu::ClearRegex
        } else if v == 8 {
            SearchMenu::Run
        } else {
            SearchMenu::Quit
        }
    }

    /// The choice at a menu position, in the fixed order the menu offers.
    pub fn from_index(v: usize) -> (r: SearchMenu)
        requires
            v < 10,
        ensures
            r == SearchMenu::spec_at(v as int),
    {
        if v == 0 {
            SearchMenu::SetEarliest
        } else if v == 1 {
            SearchMenu::ClearEarliest
        } else if v == 2 {
            SearchMenu::SetLatest
        } else if v == 3 {
            SearchMenu::ClearLatest
        } else if v == 4 {
            SearchMenu::SetString
        } else if v == 5 {
            SearchMenu::ClearString
        } else if v == 6 {
            SearchMenu::SetRegex
        } else if v == 7 {
            SearchMenu::ClearRegex
        } else if v == 8 {
            SearchMenu::Run
        } else {
            SearchMenu::Quit
        }
    }

    /// Every choice, in menu order.
    pub fn all() -> (r: Vec<SearchMenu>)
        ensures
            r@ =~= seq![
                SearchMenu::SetEarliest,
                SearchMenu::ClearEarliest,
                SearchMenu::SetLatest,
                SearchMenu::ClearLatest,
                SearchMenu::SetString,
                SearchMenu::ClearString,
                SearchMenu::SetRegex,
                SearchMenu::ClearRegex,
                SearchMenu::Run,
                SearchMenu::Quit,
            ],
    {
        vec![
            SearchMenu::SetEarliest,
            SearchMenu::ClearEarliest,
            SearchMenu::SetLatest,
            SearchMenu::ClearLatest,
            SearchMenu::SetString,
            SearchMenu::ClearString,
            SearchMenu::SetRegex,
            SearchMenu::ClearRegex,
            SearchMenu::Run,
            SearchMenu::Quit,
        ]
    }
}

// ----------------------------------------------------------------------------
// Evaluation.
// ----------------------------------------------------------------------------

/// The text body a filter sees: missing content reads as empty.
pub open spec fn content_or_empty(m: MessageV) -> Seq<char> {
    match m.content {
        Some(c) => c,
        None => Seq::empty(),
    }
}

/// All set conditions hold of the message; unset conditions hold vacuously.
/// An invalid pattern matches nothing.
pub open spec fn spec_matches(m: MessageV, t: TermsV) -> bool {
    &&& (t.earliest matches Some(e) ==> m.timestamp_ms >= e)
    &&& (t.latest matches Some(l) ==> m.timestamp_ms <= l)
    &&& (t.string matches Some(s) ==> contains_sub(content_or_empty(m), s))
    &&& (t.regex matches Some(p) ==> regex_valid(p) && regex_matches(p, content_or_empty(m)))
}

/// Whether one message passes every set filter.
pub fn matches_message(m: &Message, t: &SearchTerms) -> (r: bool)
    ensures
        r == spec_matches(m@, t@),
{
    proof {
        reveal_strlit("");
    }
    let content: &str = match &m.content {
        Some(c) => c.as_str(),
        None => "",
    };
    proof {
        assert(content@ == content_or_empty(m@));
    }
    match &t.earliest {
        Some(e) => if m.timestamp_ms < *e {
            return false;
        },
        None => {},
    }
    match &t.latest {
        Some(l) => if m.timestamp_ms > *l {
            return false;
        },
        None => {},
    }
    match &t.string {
        Some(s) => if !contains_str(content, s.as_str()) {
            return false;
        },
        None => {},
    }
    match &t.regex {
        Some(p) => match try_match(p.as_str(), content) {
            None => {
                return false;
            },
            Some(b) => if !b {
                return false;
            },
        },
        None => {},
    }
    true
}

/// Evaluate the filters over the corpus: the matching messages, in corpus
/// order; the corpus itself is consumed, not changed in order.
pub fn run_search(messages: Vec<Message>, terms: &SearchTerms) -> (r: Vec<Message>)
    ensures
        views_of(r@) == views_of(messages@).filter(
            |mv: MessageV| spec_matches(mv, terms@),
        ),
{
    let ghost all = views_of(messages@);
    let mut v = messages;
    let mut out: Vec<Message> = Vec::new();
    let ghost mut processed = Seq::<MessageV>::empty();
    proof {
        assert(views_of(out@) =~= Seq::<MessageV>::empty());
        assert(processed.filter(|mv: MessageV| spec_matches(mv, terms@))
            =~= Seq::<MessageV>::empty()) by {
            reveal(Seq::filter);
        }
        assert(all =~= processed + views_of(v@));
    }
    while v.len() > 0
        invariant
            views_of(out@) == processed.filter(|mv: MessageV| spec_matches(mv, terms@)),
            all == processed + views_of(v@),
        decreases v.len(),
    {
        let ghost vv0 = v@;
        let m = v.remove(0);
        let ghost mv = m@;
        let ghost pred = |mv: MessageV| spec_matches(mv, terms@);
        proof {
            assert(views_of(vv0) =~= seq![mv] + views_of(v@));
            let rest = views_of(v@);
            assert(processed + (seq![mv] + rest) =~= (processed + seq![mv]) + rest);
            assert((seq![mv]).filter(pred) =~= (if pred(mv) {
                seq![mv]
            } else {
                Seq::<MessageV>::empty()
            })) by {
                reveal(Seq::filter);
                assert((seq![mv]).drop_last() =~= Seq::<MessageV>::empty());
                assert(Seq::<MessageV>::empty().filter(pred) =~= Seq::<MessageV>::empty());
            }
            Seq::<MessageV>::filter_distributes_over_add(processed, seq![mv], pred);
            processed = processed + seq![mv];
        }
        if matches_message(&m, terms) {
            let ghost out0 = out@;
            out.push(m);
            proof {
                assert(views_of(out@) =~= views_of(out0).push(mv));
                assert(processed.filter(pred) =~= views_of(out0) + seq![mv]);
                assert(views_of(out0).push(mv) =~= views_of(out0) + seq![mv]);
            }
        } else {
            proof {
                assert(processed.filter(pred) =~= views_of(out@) + Seq::<MessageV>::empty());
                assert(views_of(out@) + Seq::<MessageV>::empty() =~= views_of(out@));
            }
        }
    }
    proof {
        assert(views_of(v@) =~= Seq::<MessageV>::empty());
        assert(all =~= processed);
    }
    out
}

} // verus!
