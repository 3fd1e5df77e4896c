use vstd::prelude::*;

verus! {

use vstd::utf8::encode_utf8;
use vstd::utf8::is_ascii_chars_encode_utf8;
use vstd::utf8::is_ascii_chars;

/// The characters with special meaning in the pattern language; these are
/// escaped so that a query is matched literally.
pub open spec fn is_meta_char(c: char) -> bool {
    match c {
        '\\' | '.' | '+' | '*' | '?' | '(' | ')' | '|' | '[' | ']' | '{'
        | '}' | '^' | '$' | '#' | '&' | '-' | '~' => true,
        _ => false,
    }
}

/// How a single character appears in an escaped pattern.
pub open spec fn escaped_char(c: char) -> Seq<char> {
    if is_meta_char(c) {
        seq!['\\', c]
    } else {
        seq![c]
    }
}

/// The escaped form of a query: each meta character preceded by a backslash.
pub open spec fn escape_chars(s: Seq<char>) -> Seq<char>
    decreases s.len(),
{
    if s.len() == 0 {
        Seq::empty()
    } else {
        escaped_char(s[0]) + escape_chars(s.drop_first())
    }
}

/// The pattern text built for a query: the escaped query after a `/bin/`
/// prefix, anchored at both ends in exact-match mode.
pub open spec fn pattern_chars(q: Seq<char>, exact: bool) -> Seq<char> {
    if exact {
        "^/bin/"@ + escape_chars(q) + "$"@
    } else {
        "/bin/"@ + escape_chars(q)
    }
}

/// The byte form of the `/bin/` prefix.
pub open spec fn bin_prefix_bytes() -> Seq<u8> {
    seq![47u8, 98u8, 105u8, 110u8, 47u8]
}

/// The byte sequence a matching path must contain: `/bin/` followed by the
/// query, UTF-8 encoded.
pub open spec fn needle_bytes(q: Seq<char>) -> Seq<u8> {
    encode_utf8("/bin/"@ + q)
}

/// The needle occurs in `hay` at position `i`.
pub open spec fn contains_at(hay: Seq<u8>, needle: Seq<u8>, i: int) -> bool {
    &&& 0 <= i
    &&& i + needle.len() <= hay.len()
    &&& hay.subrange(i, i + needle.len()) == needle
}

/// The needle occurs somewhere in `hay`.
pub open spec fn contains_needle(hay: Seq<u8>, needle: Seq<u8>) -> bool {
    exists|i: int| contains_at(hay, needle, i)
}

/// What the built pattern accepts: in exact-match mode the path must equal
/// `/bin/<query>`; otherwise `/bin/<query>` must occur somewhere in it.
pub open spec fn query_matches_path(q: Seq<char>, exact: bool, path: Seq<u8>) -> bool {
    if exact {
        path == needle_bytes(q)
    } else {
        contains_needle(path, needle_bytes(q))
    }
}

/// Relies on regex::escape: every character with pattern meaning gets a
/// preceding backslash, all other characters are kept as they are, so the
/// result can be used as a literal in a pattern.
#[verifier::external_body]
fn escape_query(query: &str) -> (r: String)
    ensures
        r@ == escape_chars(query@),
{
    regex::escape(query)
}

/// Build the pattern text for a query: `^/bin/<escaped>$` in exact-match
/// mode, `/bin/<escaped>` otherwise.
pub fn build_pattern(query: &str, exact: bool) -> (r: String)
    ensures
        r@ == pattern_chars(query@, exact),
{
    let escaped = escape_query(query);
    let mut r = String::new();
    if exact {
        r.append("^/bin/");
        r.append(escaped.as_str());
        r.append("$");
        proof {
            assert(r@ =~= pattern_chars(query@, exact));
        }
    } else {
        r.append("/bin/");
        r.append(escaped.as_str());
        proof {
            assert(r@ =~= pattern_chars(query@, exact));
        }
    }
    r
}

/// UTF-8 encoding distributes over concatenation.
pub proof fn lemma_encode_utf8_concat(a: Seq<char>, b: Seq<char>)
    ensures
        encode_utf8(a + b) == encode_utf8(a) + encode_utf8(b),
    decreases a.len(),
{
    if a.len() == 0 {
        assert(a + b =~= b);
        assert(encode_utf8(a) + encode_utf8(b) =~= encode_utf8(b));
    } else {
        assert((a + b).drop_first() =~= a.drop_first() + b);
        lemma_encode_utf8_concat(a.drop_first(), b);
        assert(encode_utf8(a + b) =~= encode_utf8(a) + encode_utf8(b));
    }
}

/// The needle for a query is the `/bin/` prefix bytes followed by the
/// query's own encoding.
pub proof fn lemma_needle_split(q: Seq<char>)
    ensures
        needle_bytes(q) == bin_prefix_bytes() + encode_utf8(q),
{
    reveal_strlit("/bin/");
    lemma_encode_utf8_concat("/bin/"@, q);
    broadcast use is_ascii_chars_encode_utf8;
    assert(is_ascii_chars("/bin/"@));
    assert(encode_utf8("/bin/"@) =~= bin_prefix_bytes());
}

/// A path directly under `/bin/`: the prefix bytes followed by a file name
/// that contains no path separator.
pub open spec fn is_bin_entry(path: Seq<u8>, name: Seq<u8>) -> bool {
    &&& path == bin_prefix_bytes() + name
    &&& forall|i: int| 0 <= i < name.len() ==> name[i] != 47u8
}

/// In exact-match mode, the built pattern accepts a path directly under
/// `/bin/` if and only if its final segment is exactly the query.
pub proof fn lemma_exact_match_is_final_segment(q: Seq<char>, path: Seq<u8>, name: Seq<u8>)
    requires
        is_bin_entry(path, name),
    ensures
        query_matches_path(q, true, path) <==> name == encode_utf8(q),
{
    lemma_needle_split(q);
    if name == encode_utf8(q) {
        assert(path =~= needle_bytes(q));
    }
    if query_matches_path(q, true, path) {
        assert(bin_prefix_bytes() + name =~= bin_prefix_bytes() + encode_utf8(q));
        assert forall|i: int| 0 <= i < name.len() implies name[i] == encode_utf8(q)[i] by {
            assert((bin_prefix_bytes() + name)[5 + i] == name[i]);
            assert((bin_prefix_bytes() + encode_utf8(q))[5 + i] == encode_utf8(q)[i]);
        }
        assert(name =~= encode_utf8(q));
    }
}

/// In substring mode, the built pattern accepts a path directly under
/// `/bin/` if and only if the query's encoding is a prefix of its final
/// segment. (On arbitrary paths the pattern accepts exactly the paths in
/// which `/bin/` followed by the query occurs, which is the definition of
/// `query_matches_path`.)
pub proof fn lemma_substring_match_is_prefix(q: Seq<char>, path: Seq<u8>, name: Seq<u8>)
    requires
        is_bin_entry(path, name),
    ensures
        query_matches_path(q, false, path) <==> encode_utf8(q).is_prefix_of(name),
{
    lemma_needle_split(q);
    let needle = needle_bytes(q);
    let e = encode_utf8(q);
    if e.is_prefix_of(name) {
        assert(path.subrange(0, needle.len() as int) =~= needle) by {
            assert(needle =~= bin_prefix_bytes() + e);
            assert(forall|i: int| 0 <= i < e.len() ==> name[i] == #[trigger] e[i]);
        }
        assert(contains_at(path, needle, 0));
    }
    if query_matches_path(q, false, path) {
        let i = choose|i: int| contains_at(path, needle, i);
        // The needle starts and ends its `/bin/` prefix with a separator,
        // and the only separators in the path are at offsets 0 and 4.
        assert(path[i] == 47u8 && path[i + 4] == 47u8) by {
            assert(path.subrange(i, i + needle.len()) == needle);
            assert(needle[0] == 47u8 && needle[4] == 47u8);
            assert(path.subrange(i, i + needle.len())[0] == path[i]);
            assert(path.subrange(i, i + needle.len())[4] == path[i + 4]);
        }
        assert forall|j: int| 0 <= j < path.len() && path[j] == 47u8 implies j == 0 || j == 4 by {
            if j >= 5 {
                assert(path[j] == name[j - 5]);
            } else {
                assert(path[j] == bin_prefix_bytes()[j]);
            }
        }
        assert(i == 0);
        assert(e.is_prefix_of(name)) by {
            assert(path.subrange(0, needle.len() as int) == needle);
            assert forall|k: int| 0 <= k < e.len() implies name[k] == e[k] by {
                assert(path.subrange(0, needle.len() as int)[5 + k] == path[5 + k]);
                assert(needle[5 + k] == e[k]);
            }
            assert(e =~= name.subrange(0, e.len() as int));
        }
    }
}

} // verus!
