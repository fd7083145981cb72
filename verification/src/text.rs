//! Character-level text handling: classification of control and whitespace
//! characters, conversion between strings and character vectors, and message
//! content sanitization.

use vstd::prelude::*;
use vstd::string::StrSliceExecFns;

verus! {

/// A control character: the Unicode Cc category, code points below 0x20 and
/// 0x7F through 0x9F.
pub open spec fn is_control_char(c: char) -> bool {
    (c as u32) < 0x20 || (0x7F <= (c as u32) && (c as u32) <= 0x9F)
}

/// Sanitization keeps a character unless it is a control character other
/// than newline or tab.
pub open spec fn keeps_char(c: char) -> bool {
    !is_control_char(c) || c == '\n' || c == '\t'
}

/// A whitespace character: the Unicode White_Space property.
pub open spec fn is_space_char(c: char) -> bool {
    ||| (0x09 <= (c as u32) && (c as u32) <= 0x0D)
    ||| (c as u32) == 0x20
    ||| (c as u32) == 0x85
    ||| (c as u32) == 0xA0
    ||| (c as u32) == 0x1680
    ||| (0x2000 <= (c as u32) && (c as u32) <= 0x200A)
    ||| (c as u32) == 0x2028
    ||| (c as u32) == 0x2029
    ||| (c as u32) == 0x202F
    ||| (c as u32) == 0x205F
    ||| (c as u32) == 0x3000
}

pub fn control_char(c: char) -> (r: bool)
    ensures
        r == is_control_char(c),
{
    let v = c as u32;
    v < 0x20 || (0x7F <= v && v <= 0x9F)
}

pub fn space_char(c: char) -> (r: bool)
    ensures
        r == is_space_char(c),
{
    let v = c as u32;
    (0x09 <= v && v <= 0x0D) || v == 0x20 || v == 0x85 || v == 0xA0 || v == 0x1680 || (0x2000 <= v
        && v <= 0x200A) || v == 0x2028 || v == 0x2029 || v == 0x202F || v == 0x205F || v == 0x3000
}

/// The characters of `s`, in order.
pub fn str_to_chars(s: &str) -> (r: Vec<char>)
    ensures
        r@ == s@,
{
    let n = s.unicode_len();
    let mut out: Vec<char> = Vec::new();
    let mut i: usize = 0;
    while i < n
        invariant
            n == s@.len(),
            i <= n,
            out@ =~= s@.take(i as int),
        decreases n - i,
    {
        out.push(s.get_char(i));
        proof {
            assert(out@ =~= s@.take(i + 1 as int));
        }
        i = i + 1;
    }
    proof {
        assert(s@.take(n as int) =~= s@);
    }
    out
}

/// Relies on `String`'s `FromIterator` implementation (through `collect`):
/// the resulting string holds exactly the given characters, in order.
#[verifier::external_body]
pub fn chars_to_string(v: &Vec<char>) -> (r: String)
    ensures
        r@ == v@,
{
    v.iter().collect()
}

/// `s` without its leading whitespace.
pub open spec fn trim_start(s: Seq<char>) -> Seq<char>
    decreases s.len(),
{
    if s.len() > 0 && is_space_char(s[0]) {
        trim_start(s.skip(1))
    } else {
        s
    }
}

/// `s` without its trailing whitespace.
pub open spec fn trim_end(s: Seq<char>) -> Seq<char>
    decreases s.len(),
{
    if s.len() > 0 && is_space_char(s.last()) {
        trim_end(s.drop_last())
    } else {
        s
    }
}

pub open spec fn spec_trim(s: Seq<char>) -> Seq<char> {
    trim_end(trim_start(s))
}

/// Sanitized content: control characters other than newline and tab removed,
/// then surrounding whitespace trimmed.
pub open spec fn spec_sanitize(s: Seq<char>) -> Seq<char> {
    spec_trim(s.filter(|c: char| keeps_char(c)))
}

proof fn lemma_trim_start_shape(s: Seq<char>)
    ensures
        exists|k: int|
            0 <= k <= s.len() && trim_start(s) =~= s.skip(k) && (forall|j: int|
                0 <= j < k ==> is_space_char(s[j])),
        trim_start(s).len() > 0 ==> !is_space_char(trim_start(s)[0]),
    decreases s.len(),
{
    if s.len() > 0 && is_space_char(s[0]) {
        lemma_trim_start_shape(s.skip(1));
        let k = choose|k: int|
            0 <= k <= s.skip(1).len() && trim_start(s.skip(1)) =~= s.skip(1).skip(k) && (forall|
                j: int,
            |
                0 <= j < k ==> is_space_char(s.skip(1)[j]));
        assert(s.skip(1).skip(k) =~= s.skip(k + 1));
        assert forall|j: int| 1 <= j < k + 1 implies is_space_char(s[j]) by {
            assert(is_space_char(s.skip(1)[j - 1]));
        }
        assert(0 <= k + 1 <= s.len() && trim_start(s) =~= s.skip(k + 1) && (forall|j: int|
            0 <= j < k + 1 ==> is_space_char(s[j])));
    } else {
        assert(trim_start(s) =~= s.skip(0));
    }
}

proof fn lemma_trim_end_shape(s: Seq<char>)
    ensures
        exists|k: int| 0 <= k <= s.len() && trim_end(s) =~= s.take(k),
        trim_end(s).len() > 0 ==> !is_space_char(trim_end(s).last()),
    decreases s.len(),
{
    if s.len() > 0 && is_space_char(s.last()) {
        lemma_trim_end_shape(s.drop_last());
        let k = choose|k: int| 0 <= k <= s.drop_last().len() && trim_end(s.drop_last()) =~= s.drop_last().take(k);
        assert(s.drop_last().take(k) =~= s.take(k));
    } else {
        assert(trim_end(s) =~= s.take(s.len() as int));
    }
}

/// Trimming an already-trimmed sequence changes nothing.
proof fn lemma_trim_idempotent(s: Seq<char>)
    ensures
        spec_trim(spec_trim(s)) == spec_trim(s),
{
    let t1 = trim_start(s);
    let t = trim_end(t1);
    lemma_trim_start_shape(s);
    lemma_trim_end_shape(t1);
    if t.len() > 0 {
        let k = choose|k: int| 0 <= k <= t1.len() && trim_end(t1) =~= t1.take(k);
        assert(t[0] == t1[0]);
        assert(!is_space_char(t[0]));
        assert(trim_start(t) == t);
        assert(!is_space_char(t.last()));
        assert(trim_end(t) == t);
    } else {
        assert(trim_start(t) == t);
        assert(trim_end(t) == t);
    }
}

/// Filtering a sequence whose characters all pass the predicate is the
/// identity.
proof fn lemma_filter_all_kept(s: Seq<char>)
    requires
        forall|i: int| 0 <= i < s.len() ==> keeps_char(#[trigger] s[i]),
    ensures
        s.filter(|c: char| keeps_char(c)) == s,
    decreases s.len(),
{
    reveal(Seq::filter);
    if s.len() > 0 {
        lemma_filter_all_kept(s.drop_last());
        assert(s.drop_last().push(s.last()) =~= s);
    }
}

/// Sanitization is idempotent: sanitizing sanitized content changes nothing.
/// Newline and tab survive, every other control character is removed, and
/// surrounding whitespace is trimmed (all stated by `spec_sanitize` itself).
pub proof fn lemma_sanitize_idempotent(s: Seq<char>)
    ensures
        spec_sanitize(spec_sanitize(s)) == spec_sanitize(s),
{
    let pred = |c: char| keeps_char(c);
    let y = s.filter(pred);
    let t = spec_trim(y);
    lemma_trim_start_shape(y);
    lemma_trim_end_shape(trim_start(y));
    assert forall|i: int| 0 <= i < t.len() implies keeps_char(#[trigger] t[i]) by {
        let k1 = choose|k: int|
            0 <= k <= y.len() && trim_start(y) =~= y.skip(k) && (forall|j: int|
                0 <= j < k ==> is_space_char(y[j]));
        let k2 = choose|k: int| 0 <= k <= trim_start(y).len() && t =~= trim_start(y).take(k);
        assert(t[i] == y[k1 + i]);
        s.lemma_filter_pred(pred, k1 + i);
    }
    lemma_filter_all_kept(t);
    lemma_trim_idempotent(y);
}

/// Strip control characters (keeping newline and tab) and trim surrounding
/// whitespace.
pub fn sanitize_chars(s: &Vec<char>) -> (r: Vec<char>)
    ensures
        r@ == spec_sanitize(s@),
{
    reveal(Seq::filter);
    let mut kept: Vec<char> = Vec::new();
    let mut i: usize = 0;
    while i < s.len()
        invariant
            i <= s@.len(),
            kept@ =~= s@.take(i as int).filter(|c: char| keeps_char(c)),
        decreases s@.len() - i,
    {
        let ghost pre = s@.take(i as int);
        let c = s[i];
        if !control_char(c) || c == '\n' || c == '\t' {
            kept.push(c);
        }
        proof {
            reveal(Seq::filter);
            assert(s@.take(i + 1 as int).drop_last() =~= pre);
            assert(s@.take(i + 1 as int).last() == s@[i as int]);
            assert(kept@ =~= s@.take(i + 1 as int).filter(|c: char| keeps_char(c)));
        }
        i = i + 1;
    }
    proof {
        assert(s@.take(s@.len() as int) =~= s@);
    }
    // Trim leading whitespace.
    let mut start: usize = 0;
    while start < kept.len() && space_char(kept[start])
        invariant
            start <= kept@.len(),
            forall|j: int| 0 <= j < start ==> is_space_char(kept@[j]),
        decreases kept@.len() - start,
    {
        start = start + 1;
    }
    proof {
        lemma_trim_start_at(kept@, start as int);
    }
    // Trim trailing whitespace.
    let mut end: usize = kept.len();
    while end > start && space_char(kept[end - 1])
        invariant
            start <= end <= kept@.len(),
            forall|j: int| end <= j < kept@.len() ==> is_space_char(kept@[j]),
        decreases end,
    {
        end = end - 1;
    }
    let ghost suffix = kept@.skip(start as int);
    proof {
        if end == start {
            lemma_trim_end_all_space(suffix);
        } else {
            lemma_trim_end_at(suffix, end - start as int);
        }
    }
    let mut out: Vec<char> = Vec::new();
    let mut i: usize = start;
    while i < end
        invariant
            start <= i <= end <= kept@.len(),
            out@ =~= kept@.subrange(start as int, i as int),
        decreases end - i,
    {
        out.push(kept[i]);
        proof {
            assert(out@ =~= kept@.subrange(start as int, i + 1 as int));
        }
        i = i + 1;
    }
    proof {
        assert(out@ =~= suffix.take(end - start as int));
    }
    out
}

/// When the first `k` characters are whitespace and the one after them (if
/// any) is not, trimming the start drops exactly those `k`.
proof fn lemma_trim_start_at(s: Seq<char>, k: int)
    requires
        0 <= k <= s.len(),
        forall|j: int| 0 <= j < k ==> is_space_char(s[j]),
        k < s.len() ==> !is_space_char(s[k]),
    ensures
        trim_start(s) =~= s.skip(k),
    decreases k,
{
    if k == 0 {
        if s.len() > 0 {
            assert(trim_start(s) == s);
        }
        assert(s.skip(0) =~= s);
    } else {
        assert(is_space_char(s[0]));
        assert(forall|j: int| 0 <= j < k - 1 ==> is_space_char(s.skip(1)[j]));
        assert(k - 1 < s.skip(1).len() ==> !is_space_char(s.skip(1)[k - 1]));
        lemma_trim_start_at(s.skip(1), k - 1);
        assert(s.skip(1).skip(k - 1) =~= s.skip(k));
    }
}

/// When everything from index `k` on is whitespace and the character before
/// `k` (if any) is not, trimming the end keeps exactly the first `k`.
proof fn lemma_trim_end_at(s: Seq<char>, k: int)
    requires
        0 < k <= s.len(),
        forall|j: int| k <= j < s.len() ==> is_space_char(s[j]),
        !is_space_char(s[k - 1]),
    ensures
        trim_end(s) =~= s.take(k),
    decreases s.len(),
{
    if k == s.len() {
        assert(!is_space_char(s.last()));
        assert(s.take(k) =~= s);
    } else {
        assert(is_space_char(s.last()));
        assert(forall|j: int| k <= j < s.drop_last().len() ==> is_space_char(s.drop_last()[j]));
        lemma_trim_end_at(s.drop_last(), k);
        assert(s.drop_last().take(k) =~= s.take(k));
    }
}

proof fn lemma_trim_end_all_space(s: Seq<char>)
    requires
        forall|j: int| 0 <= j < s.len() ==> is_space_char(s[j]),
    ensures
        trim_end(s) =~= s.take(0),
    decreases s.len(),
{
    if s.len() > 0 {
        lemma_trim_end_all_space(s.drop_last());
        assert(s.drop_last().take(0) =~= s.take(0));
    }
}

} // verus!
