//! Texts of Gopher responses.
use vstd::prelude::*;
use vstd::utf8::*;

verus! {

/// `String::push` appends the given character to the end of the string.
pub assume_specification[ String::push ](s: &mut String, c: char)
    ensures
        final(s)@ == old(s)@.push(c),
;

/// What `String::from_utf8_lossy` makes of a sequence of bytes.
pub uninterp spec fn lossy_text(bytes: Seq<u8>) -> Seq<char>;

/// `String::from_utf8_lossy` decodes bytes as UTF-8. Valid UTF-8 is decoded as it
/// is; elsewhere the result is a text that depends on the bytes alone, in which
/// replacement characters stand for what is invalid.
#[verifier::external_body]
fn decode_lossy(bytes: &[u8]) -> (text: String)
    ensures
        text@ == lossy_text(bytes@),
        valid_utf8(bytes@) ==> text@ == decode_utf8(bytes@),
{
    String::from_utf8_lossy(bytes).to_string()
}

/// Whether a character is kept in a response: all but DEL and the C1 control
/// characters are.
pub open spec fn is_printable(c: char) -> bool {
    c < '\u{7f}' || '\u{9f}' < c
}

/// A text without its unprintable characters.
pub open spec fn cleaned(text: Seq<char>) -> Seq<char> {
    text.filter(|c: char| is_printable(c))
}

/// Removes unprintable characters from Gopher response.
/// https://en.wikipedia.org/wiki/Control_character#In_Unicode
pub fn clean_response(res: &mut String)
    ensures
        final(res)@ == cleaned(old(res)@),
{
    let mut kept = String::new();
    let text = res.as_str();
    let mut rest = text.chars();
    let ghost mut k: int = 0;
    assert(text@.skip(0) =~= text@);
    assert(cleaned(text@.take(0)) =~= Seq::<char>::empty()) by {
        assert(text@.take(0) =~= Seq::<char>::empty());
        reveal(Seq::filter);
    }
    loop
        invariant
            0 <= k <= text@.len(),
            vstd::std_specs::iter::IteratorSpec::remaining(&rest) == text@.skip(k),
            kept@ == cleaned(text@.take(k)),
        ensures
            kept@ == cleaned(text@),
        decreases text@.len() - k,
    {
        match rest.next() {
            Some(c) => {
                assert(c == text@[k]);
                proof {
                    assert(text@.take(k + 1) =~= text@.take(k).push(c));
                    text@.take(k).lemma_filter_push(c, |c: char| is_printable(c));
                    assert(text@.skip(k).drop_first() =~= text@.skip(k + 1));
                    k = k + 1;
                }
                if c < '\u{7f}' || '\u{9f}' < c {
                    kept.push(c);
                }
            },
            None => {
                assert(text@.take(k) =~= text@);
                break;
            },
        }
    }
    *res = kept;
}

/// The text of the response that `body` holds.
pub fn response_text(body: &[u8]) -> (text: String)
    ensures
        text@ == cleaned(lossy_text(body@)),
        valid_utf8(body@) ==> text@ == cleaned(decode_utf8(body@)),
{
    let mut out = decode_lossy(body);
    clean_response(&mut out);
    out
}

/// Every character of a cleaned text is printable and comes from the text, and
/// every printable character of the text is in it.
pub proof fn law_cleaned_is_the_printable_part(text: Seq<char>, c: char)
    ensures
        cleaned(text).contains(c) <==> text.contains(c) && is_printable(c),
{
    let keep = |c: char| is_printable(c);
    if text.contains(c) && is_printable(c) {
        let i = text.index_of(c);
        text.lemma_filter_contains(keep, i);
    }
    if cleaned(text).contains(c) {
        let i = cleaned(text).index_of(c);
        text.lemma_filter_pred(keep, i);
        text.lemma_filter_contains_rev(keep, c);
    }
}

/// A text of printable characters is left as it is.
pub proof fn law_printable_text_is_kept(text: Seq<char>)
    requires
        forall|i: int| 0 <= i < text.len() ==> is_printable(#[trigger] text[i]),
    ensures
        cleaned(text) == text,
    decreases text.len(),
{
    reveal(Seq::filter);
    if text.len() > 0 {
        assert forall|i: int| 0 <= i < text.len() - 1 implies is_printable(
            #[trigger] text.drop_last()[i],
        ) by {
            assert(text.drop_last()[i] == text[i]);
        }
        law_printable_text_is_kept(text.drop_last());
        assert(text.drop_last().push(text.last()) =~= text);
        assert(is_printable(text[text.len() - 1]));
    }
}

/// Cleaning a text twice is cleaning it once.
pub proof fn law_cleaning_is_idempotent(text: Seq<char>)
    ensures
        cleaned(cleaned(text)) == cleaned(text),
{
    let keep = |c: char| is_printable(c);
    assert forall|i: int| 0 <= i < cleaned(text).len() implies is_printable(
        #[trigger] cleaned(text)[i],
    ) by {
        text.lemma_filter_pred(keep, i);
    }
    law_printable_text_is_kept(cleaned(text));
}

/// A text can be cleaned piece by piece: the order of what is kept is that of the
/// text.
pub proof fn law_cleaning_distributes(a: Seq<char>, b: Seq<char>)
    ensures
        cleaned(a + b) == cleaned(a) + cleaned(b),
{
    Seq::filter_distributes_over_add(a, b, |c: char| is_printable(c));
}

/// A character is removed where it is DEL or one of the C1 control characters, and
/// kept where it is any other.
pub proof fn law_del_and_c1_controls_are_removed(c: char)
    ensures
        ({
            let control = c == '\u{7f}' || '\u{80}' <= c <= '\u{9f}';
            &&& is_printable(c) <==> !control
            &&& control ==> cleaned(seq![c]) == Seq::<char>::empty()
            &&& !control ==> cleaned(seq![c]) == seq![c]
            &&& cleaned(Seq::<char>::empty()) == Seq::<char>::empty()
        }),
{
    let keep = |c: char| is_printable(c);
    let nothing = Seq::<char>::empty();
    reveal(Seq::filter);
    assert(nothing.filter(keep) =~= nothing);
    nothing.lemma_filter_push(c, keep);
    assert(seq![c] =~= nothing.push(c));
}

} // verus!
