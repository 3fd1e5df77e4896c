use vstd::prelude::*;

verus! {

/// The characters that trimming removes: the Unicode white-space set, as
/// the standard library's trimming uses it.
pub open spec fn is_space_char(c: char) -> bool {
    match c {
        '\t' | '\n' | '\u{b}' | '\u{c}' | '\r' | ' ' | '\u{85}' | '\u{a0}' | '\u{1680}'
        | '\u{2028}' | '\u{2029}' | '\u{202f}' | '\u{205f}' | '\u{3000}' => true,
        _ => '\u{2000}' <= c && c <= '\u{200a}',
    }
}

/// Whether a character is trimmed away.
fn is_space_char_exec(c: char) -> (b: bool)
    ensures
        b == is_space_char(c),
{
    match c {
        '\t' | '\n' | '\u{b}' | '\u{c}' | '\r' | ' ' | '\u{85}' | '\u{a0}' | '\u{1680}'
        | '\u{2028}' | '\u{2029}' | '\u{202f}' | '\u{205f}' | '\u{3000}' => true,
        _ => '\u{2000}' <= c && c <= '\u{200a}',
    }
}

/// The text with its leading white space removed.
pub open spec fn trim_start_spec(s: Seq<char>) -> Seq<char>
    decreases s.len(),
{
    if s.len() > 0 && is_space_char(s.first()) {
        trim_start_spec(s.drop_first())
    } else {
        s
    }
}

/// The text with its trailing white space removed.
pub open spec fn trim_end_spec(s: Seq<char>) -> Seq<char>
    decreases s.len(),
{
    if s.len() > 0 && is_space_char(s.last()) {
        trim_end_spec(s.drop_last())
    } else {
        s
    }
}

/// The text with leading and trailing white space removed.
pub open spec fn trim_spec(s: Seq<char>) -> Seq<char> {
    trim_end_spec(trim_start_spec(s))
}

/// The query a raw input line carries: the input must start with the
/// routing prefix; what follows it is trimmed, and an empty remainder
/// means no search is attempted.
pub open spec fn normalized_query(input: Seq<char>, prefix: Seq<char>) -> Option<Seq<char>> {
    if prefix.is_prefix_of(input) {
        let t = trim_spec(input.skip(prefix.len() as int));
        if t.len() == 0 {
            None
        } else {
            Some(t)
        }
    } else {
        None
    }
}

/// Relies on str::chars: the characters of the text, in order.
#[verifier::external_body]
fn str_chars(s: &str) -> (r: Vec<char>)
    ensures
        r@ == s@,
{
    s.chars().collect()
}

/// Relies on String's FromIterator: the string of the given characters.
#[verifier::external_body]
fn chars_to_string(v: &Vec<char>) -> (r: String)
    ensures
        r@ == v@,
{
    v.iter().collect()
}

/// Normalize a raw input line into a query: strip the routing prefix and
/// trim white space. `None` when the prefix is absent or nothing but
/// white space follows it; in either case no search is attempted.
pub fn normalize_query(input: &str, prefix: &str) -> (r: Option<String>)
    ensures
        match r {
            Some(q) => normalized_query(input@, prefix@) == Some(q@),
            None => normalized_query(input@, prefix@) is None,
        },
{
    let ic = str_chars(input);
    let pc = str_chars(prefix);
    if pc.len() > ic.len() {
        return None;
    }
    let mut i: usize = 0;
    while i < pc.len()
        invariant
            0 <= i <= pc.len() <= ic.len(),
            ic@ == input@,
            pc@ == prefix@,
            forall|j: int| 0 <= j < i ==> input@[j] == prefix@[j],
        decreases pc.len() - i,
    {
        if ic[i] != pc[i] {
            return None;
        }
        i = i + 1;
    }
    proof {
        assert(input@.subrange(0, prefix@.len() as int) =~= prefix@);
        assert(prefix@.is_prefix_of(input@));
    }
    let mut lo: usize = pc.len();
    while lo < ic.len() && is_space_char_exec(ic[lo])
        invariant
            pc.len() <= lo <= ic.len(),
            ic@ == input@,
            pc@ == prefix@,
            trim_start_spec(input@.skip(pc.len() as int)) == trim_start_spec(
                input@.skip(lo as int),
            ),
        decreases ic.len() - lo,
    {
        proof {
            assert(input@.skip(lo as int).drop_first() =~= input@.skip(lo as int + 1));
        }
        lo = lo + 1;
    }
    proof {
        if lo == ic.len() {
            assert(input@.skip(lo as int) =~= Seq::<char>::empty());
        }
        assert(trim_start_spec(input@.skip(lo as int)) == input@.skip(lo as int));
        assert(input@.skip(lo as int) =~= input@.subrange(lo as int, input@.len() as int));
    }
    let mut hi: usize = ic.len();
    while hi > lo && is_space_char_exec(ic[hi - 1])
        invariant
            pc.len() <= lo <= hi <= ic.len(),
            ic@ == input@,
            pc@ == prefix@,
            trim_end_spec(input@.subrange(lo as int, input@.len() as int)) == trim_end_spec(
                input@.subrange(lo as int, hi as int),
            ),
        decreases hi,
    {
        proof {
            assert(input@.subrange(lo as int, hi as int).drop_last() =~= input@.subrange(
                lo as int,
                hi as int - 1,
            ));
        }
        hi = hi - 1;
    }
    proof {
        assert(trim_end_spec(input@.subrange(lo as int, hi as int)) == input@.subrange(
            lo as int,
            hi as int,
        ));
        assert(trim_spec(input@.skip(pc.len() as int)) == input@.subrange(lo as int, hi as int));
    }
    if hi == lo {
        return None;
    }
    let mut q: Vec<char> = Vec::new();
    let mut k: usize = lo;
    while k < hi
        invariant
            lo <= k <= hi <= ic.len(),
            ic@ == input@,
            q@ == input@.subrange(lo as int, k as int),
        decreases hi - k,
    {
        q.push(ic[k]);
        proof {
            assert(q@ =~= input@.subrange(lo as int, k as int + 1));
        }
        k = k + 1;
    }
    Some(chars_to_string(&q))
}

} // verus!
