use vstd::prelude::*;

verus! {

use vstd::string::StrSliceExecFns;
use vstd::string::StringExecFns;
use crate::error::IPyNbError;
use crate::json::JsonValue;
use crate::notebook::{Output, OutputView, spec_normalize_output};

/// Maps one raw output record into the canonical record shape, failing on
/// any record that matches none of the three known shapes.
pub fn normalize_output(output: &JsonValue) -> (r: Result<Output, IPyNbError>)
    ensures
        r matches Ok(o) ==> spec_normalize_output(*output) == Ok::<OutputView, IPyNbError>(o@),
        r matches Err(e) ==> spec_normalize_output(*output) == Err::<OutputView, IPyNbError>(e),
{
    Output::new(output)
}

/// Compares two string slices character by character.
pub fn str_eq(a: &str, b: &str) -> (r: bool)
    ensures
        r == (a@ == b@),
{
    let n = a.unicode_len();
    if n != b.unicode_len() {
        return false;
    }
    let mut i: usize = 0;
    while i < n
        invariant
            n == a@.len(),
            n == b@.len(),
            0 <= i <= n,
            forall|k: int| 0 <= k < i ==> a@[k] == b@[k],
        decreases n - i,
    {
        if a.get_char(i) != b.get_char(i) {
            return false;
        }
        i += 1;
    }
    proof {
        assert(a@ =~= b@);
    }
    true
}

/// The concatenation of a sequence of lines, with no separator.
pub open spec fn spec_join(lines: Seq<Seq<char>>) -> Seq<char>
    decreases lines.len(),
{
    if lines.len() == 0 {
        Seq::empty()
    } else {
        lines[0] + spec_join(lines.drop_first())
    }
}

/// Appending one more line extends the concatenation at the end.
pub proof fn lemma_join_push(lines: Seq<Seq<char>>, line: Seq<char>)
    ensures
        spec_join(lines.push(line)) == spec_join(lines) + line,
    decreases lines.len(),
{
    if lines.len() == 0 {
        assert(lines.push(line).drop_first() =~= Seq::<Seq<char>>::empty());
        assert(spec_join(lines.push(line)) == line + spec_join(Seq::<Seq<char>>::empty()));
        assert(spec_join(Seq::<Seq<char>>::empty()) == Seq::<char>::empty());
        assert(line + Seq::<char>::empty() =~= line);
        assert(spec_join(lines) + line =~= line);
    } else {
        assert(lines.push(line).drop_first() =~= lines.drop_first().push(line));
        lemma_join_push(lines.drop_first(), line);
        assert(lines.push(line)[0] == lines[0]);
        assert(spec_join(lines.push(line)) == lines[0] + (spec_join(lines.drop_first()) + line));
        assert(lines[0] + (spec_join(lines.drop_first()) + line) =~= (lines[0] + spec_join(
            lines.drop_first(),
        )) + line);
    }
}

/// The view of a sequence of owned strings.
pub open spec fn string_views(v: Seq<String>) -> Seq<Seq<char>> {
    v.map_values(|s: String| s@)
}

/// Joins the lines of `vec` into one string, with no separator between them.
pub fn vec_to_string(vec: &Vec<String>) -> (r: String)
    ensures
        r@ == spec_join(string_views(vec@)),
{
    let ghost views = string_views(vec@);
    let mut string = String::new();
    let mut i: usize = 0;
    proof {
        assert(views.take(0) =~= Seq::<Seq<char>>::empty());
    }
    while i < vec.len()
        invariant
            0 <= i <= vec.len(),
            views == string_views(vec@),
            views.len() == vec@.len(),
            string@ == spec_join(views.take(i as int)),
        decreases vec.len() - i,
    {
        string.append(vec[i].as_str());
        proof {
            assert(views.take(i + 1) =~= views.take(i as int).push(views[i as int]));
            lemma_join_push(views.take(i as int), views[i as int]);
        }
        i += 1;
    }
    proof {
        assert(views.take(vec@.len() as int) =~= views);
    }
    string
}

/// The characters with the Unicode `White_Space` property, which trimming
/// removes from the ends of a rendered outputs block.
pub open spec fn spec_is_ws(c: char) -> bool {
    ||| c == '\u{0009}'
    ||| c == '\u{000A}'
    ||| c == '\u{000B}'
    ||| c == '\u{000C}'
    ||| c == '\u{000D}'
    ||| c == '\u{0020}'
    ||| c == '\u{0085}'
    ||| c == '\u{00A0}'
    ||| c == '\u{1680}'
    ||| c == '\u{2000}'
    ||| c == '\u{2001}'
    ||| c == '\u{2002}'
    ||| c == '\u{2003}'
    ||| c == '\u{2004}'
    ||| c == '\u{2005}'
    ||| c == '\u{2006}'
    ||| c == '\u{2007}'
    ||| c == '\u{2008}'
    ||| c == '\u{2009}'
    ||| c == '\u{200A}'
    ||| c == '\u{2028}'
    ||| c == '\u{2029}'
    ||| c == '\u{202F}'
    ||| c == '\u{205F}'
    ||| c == '\u{3000}'
}

/// Whether `c` is a whitespace character in the sense of `spec_is_ws`.
fn is_ws_char(c: char) -> (r: bool)
    ensures
        r == spec_is_ws(c),
{
    c == '\u{0009}' || c == '\u{000A}' || c == '\u{000B}' || c == '\u{000C}' || c == '\u{000D}'
        || c == '\u{0020}' || c == '\u{0085}' || c == '\u{00A0}' || c == '\u{1680}' || c
        == '\u{2000}' || c == '\u{2001}' || c == '\u{2002}' || c == '\u{2003}' || c == '\u{2004}'
        || c == '\u{2005}' || c == '\u{2006}' || c == '\u{2007}' || c == '\u{2008}' || c
        == '\u{2009}' || c == '\u{200A}' || c == '\u{2028}' || c == '\u{2029}' || c == '\u{202F}'
        || c == '\u{205F}' || c == '\u{3000}'
}

/// `s` with its leading whitespace removed.
pub open spec fn spec_trim_start(s: Seq<char>) -> Seq<char>
    decreases s.len(),
{
    if s.len() > 0 && spec_is_ws(s[0]) {
        spec_trim_start(s.drop_first())
    } else {
        s
    }
}

/// `s` with its trailing whitespace removed.
pub open spec fn spec_trim_end(s: Seq<char>) -> Seq<char>
    decreases s.len(),
{
    if s.len() > 0 && spec_is_ws(s.last()) {
        spec_trim_end(s.drop_last())
    } else {
        s
    }
}

/// `s` with whitespace removed from both ends.
pub open spec fn spec_trim(s: Seq<char>) -> Seq<char> {
    spec_trim_end(spec_trim_start(s))
}

/// Dropping a known-whitespace prefix is what `spec_trim_start` does.
proof fn lemma_trim_start_at(s: Seq<char>, i: int)
    requires
        0 <= i <= s.len(),
        forall|k: int| 0 <= k < i ==> spec_is_ws(s[k]),
        i == s.len() || !spec_is_ws(s[i]),
    ensures
        spec_trim_start(s) == s.skip(i),
    decreases i,
{
    if i == 0 {
        assert(s.skip(0) =~= s);
    } else {
        lemma_trim_start_at(s.drop_first(), i - 1);
        assert(s.drop_first().skip(i - 1) =~= s.skip(i));
    }
}

/// Dropping a known-whitespace suffix is what `spec_trim_end` does.
proof fn lemma_trim_end_at(s: Seq<char>, j: int)
    requires
        0 <= j <= s.len(),
        forall|k: int| j <= k < s.len() ==> spec_is_ws(s[k]),
        j == 0 || !spec_is_ws(s[j - 1]),
    ensures
        spec_trim_end(s) == s.take(j),
    decreases s.len() - j,
{
    if j == s.len() {
        assert(s.take(j) =~= s);
    } else {
        assert(spec_is_ws(s.last()));
        lemma_trim_end_at(s.drop_last(), j);
        assert(s.drop_last().take(j) =~= s.take(j));
    }
}

/// Removes leading and trailing whitespace of `s`.
pub fn trim_str(s: &str) -> (r: String)
    ensures
        r@ == spec_trim(s@),
{
    let n = s.unicode_len();
    let mut start: usize = 0;
    while start < n && is_ws_char(s.get_char(start))
        invariant
            n == s@.len(),
            0 <= start <= n,
            forall|k: int| 0 <= k < start ==> spec_is_ws(s@[k]),
        decreases n - start,
    {
        start += 1;
    }
    proof {
        lemma_trim_start_at(s@, start as int);
    }
    let mut end: usize = n;
    while end > start && is_ws_char(s.get_char(end - 1))
        invariant
            n == s@.len(),
            start <= end <= n,
            forall|k: int| end <= k < n ==> spec_is_ws(s@[k]),
        decreases end,
    {
        end -= 1;
    }
    proof {
        let t = s@.skip(start as int);
        lemma_trim_end_at(t, end - start);
        assert(t.take(end - start) =~= s@.subrange(start as int, end as int));
    }
    let sub = s.substring_char(start, end);
    sub.to_owned()
}

} // verus!
