//! The file classifier: which paths name a thread-export file worth parsing.
//! A path qualifies exactly when its final segment is
//! `message_<one-or-more-digits>.json`, immediately preceded by a path
//! separator.
use vstd::prelude::*;
use vstd::string::StrSliceExecFns;

verus! {

pub open spec fn is_ascii_digit(c: char) -> bool {
    '0' <= c && c <= '9'
}

/// `t` is exactly `message_<one-or-more-digits>.json`.
pub open spec fn spec_is_thread_filename(t: Seq<char>) -> bool {
    &&& t.len() >= 14  // room for the prefix, at least one digit, and the extension
    &&& t.subrange(0, 8) == "message_"@
    &&& t.subrange(t.len() - 5, t.len() as int) == ".json"@
    &&& forall|k: int| 8 <= k < t.len() - 5 ==> is_ascii_digit(#[trigger] t[k])
}

/// The path ends in a separator followed by a thread file name.
pub open spec fn spec_is_message_path(s: Seq<char>) -> bool {
    exists|i: int|
        0 <= i < s.len() && s[i] == '/' && spec_is_thread_filename(
            #[trigger] s.subrange(i + 1, s.len() as int),
        )
}

/// A thread file name holds no separator, so only the final segment of a path
/// can be one.
proof fn lemma_filename_chars(t: Seq<char>)
    requires
        spec_is_thread_filename(t),
    ensures
        t[7] == '_',
        t[t.len() - 5] == '.',
        t[t.len() - 4] == 'j',
        t[t.len() - 3] == 's',
        t[t.len() - 2] == 'o',
        t[t.len() - 1] == 'n',
{
    reveal_strlit("message_");
    reveal_strlit(".json");
    assert(t[7] == t.subrange(0, 8)[7]);
    assert(t[t.len() - 5] == t.subrange(t.len() - 5, t.len() as int)[0]);
    assert(t[t.len() - 4] == t.subrange(t.len() - 5, t.len() as int)[1]);
    assert(t[t.len() - 3] == t.subrange(t.len() - 5, t.len() as int)[2]);
    assert(t[t.len() - 2] == t.subrange(t.len() - 5, t.len() as int)[3]);
    assert(t[t.len() - 1] == t.subrange(t.len() - 5, t.len() as int)[4]);
}

/// Where a maximal digit run ending just before the extension starts at `j`,
/// any separator position witnessing `spec_is_message_path` stands exactly
/// nine places before `j`.
proof fn lemma_witness_locates(s: Seq<char>, i: int, j: int)
    requires
        0 <= i < s.len(),
        s[i] == '/',
        spec_is_thread_filename(s.subrange(i + 1, s.len() as int)),
        0 <= j <= s.len() - 5,
        forall|k: int| j <= k < s.len() - 5 ==> is_ascii_digit(#[trigger] s[k]),
        j == 0 || !is_ascii_digit(s[j - 1]),
    ensures
        j == i + 9,
{
    let t = s.subrange(i + 1, s.len() as int);
    lemma_filename_chars(t);
    assert(s[i + 8] == t[7]);
    assert(!is_ascii_digit('_'));
    assert forall|k: int| i + 9 <= k < s.len() - 5 implies is_ascii_digit(#[trigger] s[k]) by {
        assert(s[k] == t[k - i - 1]);
        assert(8 <= k - i - 1 < t.len() - 5);
    }
    assert(i + 9 < s.len() - 5) by {
        assert(t.len() >= 14);
    }
    if j > i + 9 {
        assert(is_ascii_digit(s[j - 1]));
        assert(false);
    }
    if j < i + 9 {
        assert(is_ascii_digit(s[i + 8]));
        assert(false);
    }
}

/// The classifier.  True exactly on paths whose final segment, right after a
/// separator, is `message_<one-or-more-digits>.json`.
pub fn is_message_file(path: &str) -> (r: bool)
    ensures
        r == spec_is_message_path(path@),
{
    let n = path.unicode_len();
    proof {
        reveal_strlit("message_");
        reveal_strlit(".json");
    }
    if n < 15 {
        proof {
            assert forall|i: int| !(0 <= i < path@.len() && path@[i] == '/'
                && spec_is_thread_filename(
                #[trigger] path@.subrange(i + 1, path@.len() as int),
            )) by {
                if 0 <= i < path@.len() && spec_is_thread_filename(
                    path@.subrange(i + 1, path@.len() as int),
                ) {
                    assert(path@.subrange(i + 1, path@.len() as int).len() >= 14);
                }
            }
        }
        return false;
    }
    if !(path.get_char(n - 5) == '.' && path.get_char(n - 4) == 'j' && path.get_char(n - 3) == 's'
        && path.get_char(n - 2) == 'o' && path.get_char(n - 1) == 'n') {
        proof {
            assert forall|i: int| !(0 <= i < path@.len() && path@[i] == '/'
                && spec_is_thread_filename(
                #[trigger] path@.subrange(i + 1, path@.len() as int),
            )) by {
                if 0 <= i < path@.len() && spec_is_thread_filename(
                    path@.subrange(i + 1, path@.len() as int),
                ) {
                    let t = path@.subrange(i + 1, path@.len() as int);
                    lemma_filename_chars(t);
                    assert(path@[n - 5] == t[t.len() - 5]);
                    assert(path@[n - 4] == t[t.len() - 4]);
                    assert(path@[n - 3] == t[t.len() - 3]);
                    assert(path@[n - 2] == t[t.len() - 2]);
                    assert(path@[n - 1] == t[t.len() - 1]);
                }
            }
        }
        return false;
    }
    let mut j: usize = n - 5;
    let mut stop = false;
    while !stop && j > 0
        invariant
            j <= n - 5,
            n == path@.len(),
            n >= 15,
            forall|k: int| j <= k < n - 5 ==> is_ascii_digit(#[trigger] path@[k]),
            stop ==> (j > 0 && !is_ascii_digit(path@[j - 1])),
        decreases j + (if stop { 0int } else { 1int }),
    {
        let c = path.get_char(j - 1);
        if '0' <= c && c <= '9' {
            j -= 1;
        } else {
            stop = true;
        }
    }
    if j >= n - 5 || j < 9 || !(path.get_char(j - 9) == '/' && path.get_char(j - 8) == 'm'
        && path.get_char(j - 7) == 'e' && path.get_char(j - 6) == 's' && path.get_char(j - 5)
        == 's' && path.get_char(j - 4) == 'a' && path.get_char(j - 3) == 'g' && path.get_char(
        j - 2,
    ) == 'e' && path.get_char(j - 1) == '_') {
        proof {
            assert forall|i: int| !(0 <= i < path@.len() && path@[i] == '/'
                && spec_is_thread_filename(
                #[trigger] path@.subrange(i + 1, path@.len() as int),
            )) by {
                if 0 <= i < path@.len() && path@[i] == '/' && spec_is_thread_filename(
                    path@.subrange(i + 1, path@.len() as int),
                ) {
                    lemma_witness_locates(path@, i, j as int);
                    let t = path@.subrange(i + 1, path@.len() as int);
                    assert(path@[i] == '/');
                    assert(path@[j - 8] == t.subrange(0, 8)[0]);
                    assert(path@[j - 7] == t.subrange(0, 8)[1]);
                    assert(path@[j - 6] == t.subrange(0, 8)[2]);
                    assert(path@[j - 5] == t.subrange(0, 8)[3]);
                    assert(path@[j - 4] == t.subrange(0, 8)[4]);
                    assert(path@[j - 3] == t.subrange(0, 8)[5]);
                    assert(path@[j - 2] == t.subrange(0, 8)[6]);
                    assert(path@[j - 1] == t.subrange(0, 8)[7]);
                    assert(i + 9 < path@.len() - 5);
                }
            }
        }
        return false;
    }
    proof {
        let i = j - 9;
        let t = path@.subrange(i + 1, n as int);
        assert(t.len() == n - j + 8);
        assert(t.subrange(0, 8) =~= "message_"@) by {
            assert forall|k: int| 0 <= k < 8 implies t.subrange(0, 8)[k] == "message_"@[k] by {
                assert(t.subrange(0, 8)[k] == path@[j - 8 + k]);
            }
        }
        assert(t.subrange(t.len() - 5, t.len() as int) =~= ".json"@) by {
            assert forall|k: int| 0 <= k < 5 implies t.subrange(t.len() - 5, t.len() as int)[k]
                == ".json"@[k] by {
                assert(t.subrange(t.len() - 5, t.len() as int)[k] == path@[n - 5 + k]);
            }
        }
        assert forall|k: int| 8 <= k < t.len() - 5 implies is_ascii_digit(#[trigger] t[k]) by {
            assert(t[k] == path@[i + 1 + k]);
            assert(j <= i + 1 + k < n - 5);
        }
        assert(spec_is_thread_filename(t));
        assert(path@[i as int] == '/');
        assert(spec_is_message_path(path@));
    }
    true
}

/// No character of a thread file name is a separator.
proof fn lemma_filename_no_slash(t: Seq<char>, k: int)
    requires
        spec_is_thread_filename(t),
        0 <= k < t.len(),
    ensures
        t[k] != '/',
{
    reveal_strlit("message_");
    reveal_strlit(".json");
    if k < 8 {
        assert(t[k] == t.subrange(0, 8)[k]);
    } else if k < t.len() - 5 {
        assert(is_ascii_digit(t[k]));
    } else {
        assert(t[k] == t.subrange(t.len() - 5, t.len() as int)[k - (t.len() - 5)]);
    }
}

/// The classifier decides by the final segment alone: a path made of any
/// prefix, a separator, and a final segment without separators is accepted
/// exactly when that final segment is `message_<one-or-more-digits>.json`.
pub proof fn lemma_classifier_final_segment(prefix: Seq<char>, name: Seq<char>)
    requires
        forall|k: int| 0 <= k < name.len() ==> #[trigger] name[k] != '/',
    ensures
        spec_is_message_path(prefix + seq!['/'] + name) == spec_is_thread_filename(name),
{
    let s = prefix + seq!['/'] + name;
    let p = prefix.len() as int;
    assert(s.len() == p + 1 + name.len());
    assert(s[p] == '/');
    if spec_is_thread_filename(name) {
        assert(s.subrange(p + 1, s.len() as int) =~= name);
        assert(spec_is_message_path(s));
    }
    if spec_is_message_path(s) {
        let i = choose|i: int|
            0 <= i < s.len() && s[i] == '/' && spec_is_thread_filename(
                #[trigger] s.subrange(i + 1, s.len() as int),
            );
        let t = s.subrange(i + 1, s.len() as int);
        if i < p {
            assert(t[p - i - 1] == s[p]);
            lemma_filename_no_slash(t, p - i - 1);
            assert(false);
        }
        if i > p {
            assert(s[i] == name[i - p - 1]);
            assert(false);
        }
        assert(t =~= name);
    }
}

// ----------------------------------------------------------------------------
// Folder discovery: the distinct parent directories of the accepted paths,
// in first-seen order.
// ----------------------------------------------------------------------------

/// The index of the last separator of `s`, or -1 where there is none.
pub open spec fn last_slash_at(s: Seq<char>) -> int
    decreases s.len(),
{
    if s.len() == 0 {
        -1
    } else if s[s.len() - 1] == '/' {
        s.len() - 1
    } else {
        last_slash_at(s.drop_last())
    }
}

/// Everything before the last separator; empty where there is none.
pub open spec fn parent_dir(s: Seq<char>) -> Seq<char> {
    if last_slash_at(s) >= 0 {
        s.subrange(0, last_slash_at(s))
    } else {
        Seq::empty()
    }
}

proof fn lemma_last_slash_range(s: Seq<char>)
    ensures
        last_slash_at(s) < s.len(),
        last_slash_at(s) >= 0 ==> s[last_slash_at(s)] == '/',
    decreases s.len(),
{
    if s.len() > 0 && s[s.len() - 1] != '/' {
        lemma_last_slash_range(s.drop_last());
        if last_slash_at(s.drop_last()) >= 0 {
            assert(s.drop_last()[last_slash_at(s.drop_last())] == s[last_slash_at(s)]);
        }
    }
}

/// The parent directory of a path: everything before the last separator.
pub fn parent_of(path: &str) -> (r: String)
    ensures
        r@ == parent_dir(path@),
{
    let n = path.unicode_len();
    let mut k: usize = n;
    proof {
        assert(path@.take(n as int) =~= path@);
    }
    while k > 0
        invariant
            k <= n,
            n == path@.len(),
            last_slash_at(path@) == last_slash_at(path@.take(k as int)),
        decreases k,
    {
        let c = path.get_char(k - 1);
        if c == '/' {
            proof {
                assert(path@.take(k as int)[k - 1] == path@[k - 1]);
                assert(last_slash_at(path@.take(k as int)) == k - 1);
                lemma_last_slash_range(path@);
            }
            let r = path.substring_char(0, k - 1);
            proof {
                assert(r@ =~= parent_dir(path@));
            }
            return String::from_str(r);
        }
        proof {
            assert(path@.take(k as int)[k - 1] == path@[k - 1]);
            assert(path@.take(k as int).drop_last() =~= path@.take(k as int - 1));
        }
        k -= 1;
    }
    proof {
        assert(path@.take(0).len() == 0);
        assert(parent_dir(path@) =~= Seq::<char>::empty());
    }
    String::new()
}

/// Whether some element of `v` reads `s`.
pub fn contains_string(v: &Vec<String>, s: &str) -> (r: bool)
    ensures
        r == v.deep_view().contains(s@),
{
    proof {
        assert forall|b: int| 0 <= b < v@.len() implies #[trigger] v.deep_view()[b]
            == v@[b]@ by {
            assert(v.deep_view()[b] == v@[b].deep_view());
        }
    }
    let n = v.len();
    let mut i: usize = 0;
    while i < n
        invariant
            i <= n,
            n == v@.len(),
            v.deep_view().len() == v@.len(),
            forall|b: int| 0 <= b < v@.len() ==> #[trigger] v.deep_view()[b] == v@[b]@,
            forall|b: int| 0 <= b < i ==> v.deep_view()[b] != s@,
        decreases n - i,
    {
        if crate::json::str_eq(v[i].as_str(), s) {
            proof {
                assert(v.deep_view()[i as int] == s@);
            }
            return true;
        }
        i += 1;
    }
    false
}

/// The distinct parent directories of the accepted paths, in first-seen
/// order, accumulated front to back.
pub open spec fn spec_folders_acc(ps: Seq<Seq<char>>, acc: Seq<Seq<char>>) -> Seq<Seq<char>>
    decreases ps.len(),
{
    if ps.len() == 0 {
        acc
    } else {
        let acc2 = if spec_is_message_path(ps[0]) && !acc.contains(parent_dir(ps[0])) {
            acc.push(parent_dir(ps[0]))
        } else {
            acc
        };
        spec_folders_acc(ps.drop_first(), acc2)
    }
}

pub open spec fn spec_folders(ps: Seq<Seq<char>>) -> Seq<Seq<char>> {
    spec_folders_acc(ps, Seq::empty())
}

/// Folder discovery over a list of scanned paths, in walk order: keep the
/// parent directory of every path the classifier accepts, each distinct
/// parent once, in first-seen order.
pub fn message_folders(paths: &Vec<String>) -> (r: Vec<String>)
    ensures
        r.deep_view() == spec_folders(paths.deep_view()),
{
    proof {
        assert forall|b: int| 0 <= b < paths@.len() implies #[trigger] paths.deep_view()[b]
            == paths@[b]@ by {
            assert(paths.deep_view()[b] == paths@[b].deep_view());
        }
    }
    let n = paths.len();
    let mut out: Vec<String> = Vec::new();
    let mut i: usize = 0;
    proof {
        assert(paths.deep_view().skip(0) =~= paths.deep_view());
        assert(out.deep_view() =~= Seq::<Seq<char>>::empty());
    }
    while i < n
        invariant
            i <= n,
            n == paths@.len(),
            paths.deep_view().len() == paths@.len(),
            forall|b: int| 0 <= b < paths@.len() ==> #[trigger] paths.deep_view()[b] == paths@[b]@,
            spec_folders_acc(paths.deep_view().skip(i as int), out.deep_view())
                == spec_folders(paths.deep_view()),
        decreases n - i,
    {
        let ghost pre = paths.deep_view().skip(i as int);
        proof {
            assert(pre[0] == paths.deep_view()[i as int]);
            assert(pre.drop_first() =~= paths.deep_view().skip(i as int + 1));
        }
        if is_message_file(paths[i].as_str()) {
            let parent = parent_of(paths[i].as_str());
            if !contains_string(&out, parent.as_str()) {
                let ghost out0 = out.deep_view();
                out.push(parent);
                proof {
                    assert(out.deep_view() =~= out0.push(parent_dir(pre[0])));
                }
            }
        }
        i += 1;
    }
    proof {
        assert(paths.deep_view().skip(n as int).len() == 0);
    }
    out
}

} // verus!
