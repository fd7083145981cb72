//! Message validation, sanitization and mention parsing.
//!
//! Mentions are written `<@id>` for users, `<@&id>` for roles and `<#id>`
//! for channels, where `id` is the textual form of a 128-bit identifier.
//! The scanner consumes a candidate up to the closing `>` and keeps it only
//! when the identifier parses.

use crate::error::AppError;
use crate::text::{sanitize_chars, spec_sanitize, str_to_chars, chars_to_string};
use vstd::prelude::*;
use vstd::string::StringSliceAdditionalSpecFns;

verus! {

broadcast use vstd::slice::axiom_spec_len;

/// Maximum message length in bytes.
pub const MAX_MESSAGE_LENGTH: usize = 4000;

/// Maximum number of reactions per message.
pub const MAX_REACTIONS_PER_MESSAGE: usize = 20;

/// What `uuid::Uuid::try_parse` returns on a string: the identifier's value,
/// or nothing when the string is not one of the textual UUID forms.
pub uninterp spec fn uuid_of(s: Seq<char>) -> Option<u128>;

/// The canonical (hyphenated, lowercase) textual form of an identifier, as
/// `uuid::Uuid::to_string` produces it.
pub uninterp spec fn uuid_str_of(id: u128) -> Seq<char>;

/// A lowercase hexadecimal digit or a hyphen: the only characters in the
/// canonical textual form of an identifier.
pub open spec fn is_hex_or_hyphen(c: char) -> bool {
    ('0' <= c && c <= '9') || ('a' <= c && c <= 'f') || c == '-'
}

/// Relies on `uuid::Uuid::try_parse` (with `as_u128`): whether a string
/// parses, and to which value, depends on its characters alone.
#[verifier::external_body]
pub fn parse_uuid(s: &str) -> (r: Option<u128>)
    ensures
        r == uuid_of(s@),
{
    match uuid::Uuid::try_parse(s) {
        Ok(u) => Some(u.as_u128()),
        Err(_) => None,
    }
}

/// Relies on `uuid::Uuid::to_string` (via `from_u128`): the output is the
/// 36-character hyphenated lowercase form, and parsing it back yields the
/// same value.
#[verifier::external_body]
pub fn uuid_to_string(id: u128) -> (r: String)
    ensures
        r@ == uuid_str_of(id),
        uuid_of(r@) == Some(id),
        r@.len() == 36,
        forall|i: int| 0 <= i < r@.len() ==> is_hex_or_hyphen(#[trigger] r@[i]),
{
    uuid::Uuid::from_u128(id).to_string()
}

#[derive(Debug, Clone, Copy, PartialEq, Eq, Structural)]
pub enum MentionType {
    User(u128),
    Role(u128),
    Channel(u128),
}

/// Index of the first `>` in `s`, or `s.len()` when there is none.
pub open spec fn first_gt(s: Seq<char>) -> int
    decreases s.len(),
{
    if s.len() == 0 {
        0
    } else if s[0] == '>' {
        0
    } else {
        1 + first_gt(s.skip(1))
    }
}

pub proof fn lemma_first_gt(s: Seq<char>)
    ensures
        0 <= first_gt(s) <= s.len(),
        forall|j: int| 0 <= j < first_gt(s) ==> s[j] != '>',
        first_gt(s) < s.len() ==> s[first_gt(s)] == '>',
    decreases s.len(),
{
    if s.len() > 0 && s[0] != '>' {
        lemma_first_gt(s.skip(1));
        assert forall|j: int| 0 <= j < first_gt(s) implies s[j] != '>' by {
            if j > 0 {
                assert(s.skip(1)[j - 1] != '>');
            }
        }
    }
}

/// What remains to scan after a mention candidate whose identifier part is
/// `body`: everything past the first `>`, or nothing when no `>` is left.
pub open spec fn after_gt(body: Seq<char>) -> Seq<char> {
    if first_gt(body) < body.len() {
        body.skip(first_gt(body) + 1)
    } else {
        Seq::empty()
    }
}

/// The mentions of `s`, in order. A `<@&`, `<@` or `<#` opener takes
/// everything up to the next `>` (or the end) as a candidate identifier and
/// keeps it only when it parses; any other character is skipped.
pub open spec fn spec_mentions(s: Seq<char>) -> Seq<MentionType>
    decreases s.len(),
    when true
    via spec_mentions_decreases
{
    if s.len() == 0 {
        Seq::empty()
    } else if s[0] == '<' && s.len() >= 3 && s[1] == '@' && s[2] == '&' {
        let body = s.skip(3);
        let tail = spec_mentions(after_gt(body));
        match uuid_of(body.take(first_gt(body))) {
            Some(u) => seq![MentionType::Role(u)] + tail,
            None => tail,
        }
    } else if s[0] == '<' && s.len() >= 2 && s[1] == '@' {
        let body = s.skip(2);
        let tail = spec_mentions(after_gt(body));
        match uuid_of(body.take(first_gt(body))) {
            Some(u) => seq![MentionType::User(u)] + tail,
            None => tail,
        }
    } else if s[0] == '<' && s.len() >= 2 && s[1] == '#' {
        let body = s.skip(2);
        let tail = spec_mentions(after_gt(body));
        match uuid_of(body.take(first_gt(body))) {
            Some(u) => seq![MentionType::Channel(u)] + tail,
            None => tail,
        }
    } else {
        spec_mentions(s.skip(1))
    }
}

#[via_fn]
proof fn spec_mentions_decreases(s: Seq<char>) {
    if s.len() > 0 && s[0] == '<' && s.len() >= 3 && s[1] == '@' && s[2] == '&' {
        lemma_first_gt(s.skip(3));
    } else if s.len() > 0 && s[0] == '<' && s.len() >= 2 && (s[1] == '@' || s[1] == '#') {
        lemma_first_gt(s.skip(2));
    }
}

/// Scan for the first `>` at or after `from`; the result is its index, or
/// the length when there is none.
fn find_gt(s: &Vec<char>, from: usize) -> (r: usize)
    requires
        from <= s@.len(),
    ensures
        from <= r <= s@.len(),
        r - from == first_gt(s@.skip(from as int)),
    {
    let mut i: usize = from;
    while i < s.len() && s[i] != '>'
        invariant
            from <= i <= s@.len(),
            forall|j: int| from <= j < i ==> s@[j] != '>',
        decreases s@.len() - i,
    {
        i = i + 1;
    }
    proof {
        lemma_first_gt_at(s@, from as int, i as int);
    }
    i
}

/// When the characters of `s` from `from` up to `j` are not `>` and the one
/// at `j` (if any) is, the first `>` of the suffix starting at `from` sits at
/// offset `j - from`.
proof fn lemma_first_gt_at(s: Seq<char>, from: int, j: int)
    requires
        0 <= from <= j <= s.len(),
        forall|t: int| from <= t < j ==> s[t] != '>',
        j < s.len() ==> s[j] == '>',
    ensures
        first_gt(s.skip(from)) == j - from,
    decreases j - from,
{
    if j == from {
        if from < s.len() {
            assert(s.skip(from)[0] == s[from]);
        }
    } else {
        assert(s.skip(from)[0] == s[from]);
        assert(s.skip(from).skip(1) =~= s.skip(from + 1));
        lemma_first_gt_at(s, from + 1, j);
    }
}

/// The characters of `s` from `from` up to `to`, as a string.
fn substring_of(s: &Vec<char>, from: usize, to: usize) -> (r: String)
    requires
        from <= to <= s@.len(),
    ensures
        r@ == s@.subrange(from as int, to as int),
{
    let mut out: Vec<char> = Vec::new();
    let mut i: usize = from;
    while i < to
        invariant
            from <= i <= to <= s@.len(),
            out@ =~= s@.subrange(from as int, i as int),
        decreases to - i,
    {
        out.push(s[i]);
        proof {
            assert(out@ =~= s@.subrange(from as int, i + 1 as int));
        }
        i = i + 1;
    }
    chars_to_string(&out)
}

/// Parse the mentions of `content`, in the order they occur.
pub fn parse_mentions(content: &str) -> (r: Vec<MentionType>)
    ensures
        r@ == spec_mentions(content@),
{
    let chars = str_to_chars(content);
    let ghost whole = chars@;
    let mut out: Vec<MentionType> = Vec::new();
    let mut i: usize = 0;
    proof {
        assert(whole.skip(0) =~= whole);
    }
    while i < chars.len()
        invariant
            i <= whole.len(),
            chars@ == whole,
            out@ + spec_mentions(whole.skip(i as int)) =~= spec_mentions(whole),
        decreases whole.len() - i,
    {
        let ghost rem = whole.skip(i as int);
        proof {
            assert(rem[0] == whole[i as int]);
            if i + 1 <= whole.len() {
                assert(rem.skip(1) =~= whole.skip(i + 1 as int));
            }
        }
        if chars[i] == '<' && chars.len() - i > 2 && chars[i + 1] == '@' && chars[i + 2] == '&' {
            proof {
                assert(rem[1] == whole[i + 1 as int]);
                assert(rem[2] == whole[i + 2 as int]);
                assert(rem.skip(3) =~= whole.skip(i + 3 as int));
            }
            let start = i + 3;
            let j = find_gt(&chars, start);
            let id = substring_of(&chars, start, j);
            proof {
                assert(whole.skip(start as int).take(j - start as int) =~= whole.subrange(
                    start as int,
                    j as int,
                ));
                lemma_first_gt(whole.skip(start as int));
                if j < whole.len() {
                    assert(whole.skip(start as int).skip(j - start as int + 1) =~= whole.skip(
                        j + 1 as int,
                    ));
                }
            }
            match parse_uuid(id.as_str()) {
                Some(u) => {
                    out.push(MentionType::Role(u));
                },
                None => {},
            }
            if j < chars.len() {
                i = j + 1;
            } else {
                i = chars.len();
                proof {
                    assert(whole.skip(i as int) =~= Seq::<char>::empty());
                }
            }
        } else if chars[i] == '<' && chars.len() - i > 1 && (chars[i + 1] == '@' || chars[i + 1]
            == '#') {
            proof {
                assert(rem[1] == whole[i + 1 as int]);
                assert(rem.skip(2) =~= whole.skip(i + 2 as int));
            }
            let is_user = chars[i + 1] == '@';
            let start = i + 2;
            let j = find_gt(&chars, start);
            let id = substring_of(&chars, start, j);
            proof {
                assert(whole.skip(start as int).take(j - start as int) =~= whole.subrange(
                    start as int,
                    j as int,
                ));
                lemma_first_gt(whole.skip(start as int));
                if j < whole.len() {
                    assert(whole.skip(start as int).skip(j - start as int + 1) =~= whole.skip(
                        j + 1 as int,
                    ));
                }
            }
            match parse_uuid(id.as_str()) {
                Some(u) => {
                    if is_user {
                        out.push(MentionType::User(u));
                    } else {
                        out.push(MentionType::Channel(u));
                    }
                },
                None => {},
            }
            if j < chars.len() {
                i = j + 1;
            } else {
                i = chars.len();
                proof {
                    assert(whole.skip(i as int) =~= Seq::<char>::empty());
                }
            }
        } else {
            i = i + 1;
        }
    }
    proof {
        assert(whole.skip(whole.len() as int) =~= Seq::<char>::empty());
    }
    out
}

/// A string without `<` holds no mentions.
pub proof fn lemma_mentions_none(s: Seq<char>)
    requires
        forall|i: int| 0 <= i < s.len() ==> s[i] != '<',
    ensures
        spec_mentions(s) == Seq::<MentionType>::empty(),
    decreases s.len(),
{
    if s.len() > 0 {
        assert(forall|i: int| 0 <= i < s.skip(1).len() ==> s.skip(1)[i] != '<');
        lemma_mentions_none(s.skip(1));
    }
}

/// Plain text without `<` in front of a string contributes no mentions.
pub proof fn lemma_mentions_after_text(t: Seq<char>, s: Seq<char>)
    requires
        forall|i: int| 0 <= i < t.len() ==> t[i] != '<',
    ensures
        spec_mentions(t + s) == spec_mentions(s),
    decreases t.len(),
{
    if t.len() == 0 {
        assert(t + s =~= s);
    } else {
        assert((t + s)[0] == t[0]);
        assert((t + s).skip(1) =~= t.skip(1) + s);
        assert(forall|i: int| 0 <= i < t.skip(1).len() ==> t.skip(1)[i] != '<');
        lemma_mentions_after_text(t.skip(1), s);
    }
}

/// A rendered mention at the front of a string is parsed as exactly that
/// mention (when its identifier text parses), followed by the mentions of
/// the rest. `opener_at` tells the kind: the characters after `<` are `@&`
/// for a role, `@` for a user, `#` for a channel.
pub proof fn lemma_mention_prefix(kind: MentionType, u: Seq<char>, rest: Seq<char>)
    requires
        forall|i: int| 0 <= i < u.len() ==> u[i] != '>',
        kind is User || kind is Channel ==> (u.len() > 0 ==> u[0] != '&'),
    ensures
        ({
            let opener = match kind {
                MentionType::User(_) => seq!['<', '@'],
                MentionType::Role(_) => seq!['<', '@', '&'],
                MentionType::Channel(_) => seq!['<', '#'],
            };
            let s = opener + u + seq!['>'] + rest;
            spec_mentions(s) == match uuid_of(u) {
                Some(x) => seq![
                    match kind {
                        MentionType::User(_) => MentionType::User(x),
                        MentionType::Role(_) => MentionType::Role(x),
                        MentionType::Channel(_) => MentionType::Channel(x),
                    },
                ] + spec_mentions(rest),
                None => spec_mentions(rest),
            }
        }),
{
    let opener = match kind {
        MentionType::User(_) => seq!['<', '@'],
        MentionType::Role(_) => seq!['<', '@', '&'],
        MentionType::Channel(_) => seq!['<', '#'],
    };
    let s = opener + u + seq!['>'] + rest;
    let body = u + seq!['>'] + rest;
    assert(s.skip(opener.len() as int) =~= body);
    assert(forall|t: int| 0 <= t < u.len() ==> body[t] != '>');
    assert(body[u.len() as int] == '>');
    assert(body.skip(0) =~= body);
    lemma_first_gt_at(body, 0, u.len() as int);
    assert(body.take(u.len() as int) =~= u);
    assert(body.skip(u.len() as int + 1) =~= rest);
    match kind {
        MentionType::Role(_) => {
            assert(s[0] == '<' && s[1] == '@' && s[2] == '&');
        },
        MentionType::User(_) => {
            assert(s[0] == '<' && s[1] == '@');
            if u.len() > 0 {
                assert(s[2] == u[0]);
            } else {
                assert(s[2] == '>');
            }
        },
        MentionType::Channel(_) => {
            assert(s[0] == '<' && s[1] == '#');
            assert(s[1] != '@');
        },
    }
}

fn render_tail(ms: &Vec<MentionType>, idx: usize) -> (r: Vec<char>)
    requires
        idx <= ms@.len(),
    ensures
        spec_mentions(r@) == ms@.skip(idx as int),
    decreases ms@.len() - idx,
{
    if idx == ms.len() {
        let out: Vec<char> = Vec::new();
        proof {
            assert(ms@.skip(idx as int) =~= Seq::<MentionType>::empty());
        }
        return out;
    }
    let m = ms[idx];
    let mut tail = render_tail(ms, idx + 1);
    let ghost rest = tail@;
    let mut out: Vec<char> = Vec::new();
    out.push('<');
    let id: u128 = match m {
        MentionType::User(id) => {
            out.push('@');
            id
        },
        MentionType::Role(id) => {
            out.push('@');
            out.push('&');
            id
        },
        MentionType::Channel(id) => {
            out.push('#');
            id
        },
    };
    let ghost opener = (match m {
        MentionType::User(_) => seq!['<', '@'],
        MentionType::Role(_) => seq!['<', '@', '&'],
        MentionType::Channel(_) => seq!['<', '#'],
    });
    proof {
        assert(out@ =~= opener);
    }
    let ustr = uuid_to_string(id);
    let mut uchars = str_to_chars(ustr.as_str());
    let ghost u = uchars@;
    out.append(&mut uchars);
    out.push('>');
    out.append(&mut tail);
    proof {
        assert(out@ =~= opener + u + seq!['>'] + rest);
        assert forall|i: int| 0 <= i < u.len() implies u[i] != '>' by {
            assert(is_hex_or_hyphen(u[i]));
        }
        if u.len() > 0 {
            assert(is_hex_or_hyphen(u[0]));
        }
        lemma_mention_prefix(m, u, rest);
        assert(ms@.skip(idx as int) =~= seq![m] + ms@.skip(idx + 1 as int));
    }
    out
}

/// Write a list of mentions back to text: each becomes `<@id>`, `<@&id>` or
/// `<#id>` with the identifier in canonical form. Parsing the result yields
/// exactly the given mentions: the round trip is part of the contract.
pub fn render_mentions(ms: &Vec<MentionType>) -> (r: String)
    ensures
        spec_mentions(r@) == ms@,
{
    let chars = render_tail(ms, 0);
    proof {
        assert(ms@.skip(0) =~= ms@);
    }
    chars_to_string(&chars)
}

/// Validate a message body before storing or sending it: it must be
/// non-empty and at most `MAX_MESSAGE_LENGTH` bytes.
pub fn validate_message(content: &str) -> (r: Result<(), AppError>)
    ensures
        r is Ok <==> 1 <= content.spec_bytes().len() <= MAX_MESSAGE_LENGTH,
        r is Err ==> r->Err_0 is BadRequest,
    {
    let bytes = content.as_bytes();
    if bytes.len() == 0 {
        return Err(AppError::BadRequest);
    }
    if bytes.len() > MAX_MESSAGE_LENGTH {
        return Err(AppError::BadRequest);
    }
    Ok(())
}

/// Sanitize message content: remove control characters (keeping newline and
/// tab) and trim surrounding whitespace.
pub fn sanitize_content(content: &str) -> (r: String)
    ensures
        r@ == spec_sanitize(content@),
{
    let chars = str_to_chars(content);
    let cleaned = sanitize_chars(&chars);
    chars_to_string(&cleaned)
}

} // verus!
