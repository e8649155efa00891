use vstd::prelude::*;

verus! {

/// A control character: the Unicode general category Cc, which is the C0
/// block, DEL and the C1 block.
pub open spec fn is_control_char(c: char) -> bool {
    ('\u{0}' <= c && c <= '\u{1f}') || ('\u{7f}' <= c && c <= '\u{9f}')
}

/// A character that may not appear in an output file name.
pub open spec fn is_invalid_char(c: char) -> bool {
    ||| c == '<'
    ||| c == '>'
    ||| c == ':'
    ||| c == '\''
    ||| c == '"'
    ||| c == '/'
    ||| c == '\\'
    ||| c == '|'
    ||| c == '?'
    ||| c == '*'
    ||| is_control_char(c)
}

/// The text with every invalid character removed, the others kept in order.
pub open spec fn sanitized(s: Seq<char>) -> Seq<char>
    decreases s.len(),
{
    if s.len() == 0 {
        seq![]
    } else if is_invalid_char(s.last()) {
        sanitized(s.drop_last())
    } else {
        sanitized(s.drop_last()).push(s.last())
    }
}

/// No character of a sanitized text is invalid.
pub proof fn lemma_sanitized_valid(s: Seq<char>)
    ensures
        forall|i: int| 0 <= i < sanitized(s).len() ==> !is_invalid_char(#[trigger] sanitized(s)[i]),
        sanitized(s).len() <= s.len(),
    decreases s.len(),
{
    if s.len() > 0 {
        lemma_sanitized_valid(s.drop_last());
    }
}

/// A text without invalid characters is its own sanitized form.
pub proof fn lemma_sanitized_of_valid(s: Seq<char>)
    requires
        forall|i: int| 0 <= i < s.len() ==> !is_invalid_char(#[trigger] s[i]),
    ensures
        sanitized(s) == s,
    decreases s.len(),
{
    if s.len() > 0 {
        assert forall|i: int| 0 <= i < s.drop_last().len() implies !is_invalid_char(
            #[trigger] s.drop_last()[i],
        ) by {
            assert(s.drop_last()[i] == s[i]);
        }
        lemma_sanitized_of_valid(s.drop_last());
        assert(!is_invalid_char(s[s.len() - 1]));
        assert(s.drop_last().push(s.last()) =~= s);
    }
}

/// Sanitizing is idempotent, and its result holds none of the invalid
/// characters.
pub proof fn lemma_sanitize_idempotent(s: Seq<char>)
    ensures
        sanitized(sanitized(s)) == sanitized(s),
        forall|i: int| 0 <= i < sanitized(s).len() ==> !is_invalid_char(#[trigger] sanitized(s)[i]),
{
    lemma_sanitized_valid(s);
    lemma_sanitized_of_valid(sanitized(s));
}

/// Relies on String::push: appends one character.
#[verifier::external_body]
pub(crate) fn push_char(s: &mut String, c: char)
    ensures
        final(s)@ == old(s)@.push(c),
{
    s.push(c);
}

/// Whether a character may not appear in an output file name.
pub fn is_invalid_character(c: char) -> (r: bool)
    ensures
        r == is_invalid_char(c),
{
    c == '<' || c == '>' || c == ':' || c == '\'' || c == '"' || c == '/' || c == '\\' || c == '|'
        || c == '?' || c == '*' || (c <= '\u{1f}') || ('\u{7f}' <= c && c <= '\u{9f}')
}

/// Removes from the text every character that may not appear in a file name:
/// `< > : ' " / \ | ? *` and the control characters.
pub fn clean_invalid_characters(input: &str) -> (r: String)
    ensures
        r@ == sanitized(input@),
{
    let mut out = String::new();
    broadcast use vstd::string::axiom_spec_iter;
    for c in it: input.chars()
        invariant
            it.seq() == input@,
            out@ == sanitized(input@.take(it.index() as int)),
    {
        proof {
            assert(input@.take(it.index() + 1).drop_last() =~= input@.take(it.index() as int));
        }
        if !is_invalid_character(c) {
            push_char(&mut out, c);
        }
    }
    proof {
        assert(input@.take(input@.len() as int) =~= input@);
    }
    out
}

} // verus!
