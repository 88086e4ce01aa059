//! The markdown entries appended to the daily note.
use vstd::prelude::*;
use crate::config::TextFormat;
use crate::text::{
    lemma_join_cons, lemma_lines_cons, strip_cr, lemma_single_line, chars_range, concat_prefixed, concat_prefixed_from, join, join_prefixed, lemma_chars_deep_view,
    lines, lines_of, newline_index, newline_pos, prefix_each, push_str, str_chars, string_from_chars,
};

verus! {

/// The view of an optional string slice.
pub open spec fn opt_view(o: Option<&str>) -> Option<Seq<char>> {
    match o {
        Some(s) => Some(s@),
        None => None,
    }
}

/// `- {time} — `, the head of a timestamped entry.
pub open spec fn timestamp_head(time: Seq<char>) -> Seq<char> {
    "- "@ + time + " — "@
}

/// The entry for `text` in the given format: timestamped puts the time before
/// the first line and indents the continuation lines by two spaces; the other
/// formats prefix every line with `> `, `- ` or `- [ ] `.
pub open spec fn text_block(format: TextFormat, text: Seq<char>, time: Seq<char>) -> Seq<char> {
    let ls = lines(text);
    match format {
        TextFormat::Timestamped => if ls.len() <= 1 {
            timestamp_head(time) + text
        } else {
            timestamp_head(time) + ls[0] + concat_prefixed(ls.skip(1), "\n  "@)
        },
        TextFormat::Blockquote => join(prefix_each(ls, "> "@), "\n"@),
        TextFormat::Bullet => join(prefix_each(ls, "- "@), "\n"@),
        TextFormat::Checkbox => join(prefix_each(ls, "- [ ] "@), "\n"@),
    }
}

/// `block` with ` — {suffix}` added at the end of its first line.
pub open spec fn appended_to_first_line(block: Seq<char>, suffix: Seq<char>) -> Seq<char> {
    let k = newline_pos(block);
    if k < block.len() {
        block.take(k as int) + " — "@ + suffix + "\n"@ + block.skip((k + 1) as int)
    } else {
        block + " — "@ + suffix
    }
}

/// `block` with the user's note added as the format puts it: on the first
/// line for timestamped entries, as one more quoted, bulleted or checkbox
/// line otherwise. An absent or empty note leaves the block as it is.
pub open spec fn annotated(block: Seq<char>, format: TextFormat, annotation: Option<Seq<char>>) -> Seq<char> {
    match annotation {
        Some(a) => if a.len() == 0 {
            block
        } else {
            match format {
                TextFormat::Timestamped => appended_to_first_line(block, a),
                TextFormat::Blockquote => block + "\n> "@ + a,
                TextFormat::Bullet => block + "\n- "@ + a,
                TextFormat::Checkbox => block + "\n- [ ] "@ + a,
            }
        },
        None => block,
    }
}

/// `- {time} — ![[{filename}]]`, the entry for a saved image.
pub open spec fn image_line(time: Seq<char>, filename: Seq<char>) -> Seq<char> {
    timestamp_head(time) + "![["@ + filename + "]]"@
}

/// The recognized text of an image, one indented line below the image entry per line.
pub open spec fn ocr_lines(ocr_text: Option<Seq<char>>) -> Seq<char> {
    match ocr_text {
        Some(t) => concat_prefixed(lines(t), "\n  "@),
        None => seq![],
    }
}

/// No note, or an empty one, leaves an entry as it is.
pub proof fn lemma_no_note_keeps_entry(block: Seq<char>, format: TextFormat)
    ensures
        annotated(block, format, None) == block,
        annotated(block, format, Some(Seq::<char>::empty())) == block,
{
}

/// A single line of text is a single entry line in every format:
/// `- {time} — {line}`, `> {line}`, `- {line}` or `- [ ] {line}`.
pub proof fn lemma_single_line_entry(text: Seq<char>, time: Seq<char>)
    requires
        text.len() > 0,
        forall|i: int| 0 <= i < text.len() ==> text[i] != '\n',
        text.last() != '\r',
    ensures
        text_block(TextFormat::Timestamped, text, time) == timestamp_head(time) + text,
        text_block(TextFormat::Blockquote, text, time) == "> "@ + text,
        text_block(TextFormat::Bullet, text, time) == "- "@ + text,
        text_block(TextFormat::Checkbox, text, time) == "- [ ] "@ + text,
{
    lemma_single_line(text);
    assert(prefix_each(seq![text], "> "@) =~= seq!["> "@ + text]);
    assert(prefix_each(seq![text], "- "@) =~= seq!["- "@ + text]);
    assert(prefix_each(seq![text], "- [ ] "@) =~= seq!["- [ ] "@ + text]);
}

/// The quoted, bulleted and checkbox formats give one entry line per line of
/// the text (as `str::lines` splits it), each line behind its prefix, joined
/// with line feeds.
pub proof fn lemma_prefixed_entry_lines(text: Seq<char>, time: Seq<char>)
    ensures
        text_block(TextFormat::Blockquote, text, time) == join(lines(text).map_values(|l: Seq<char>| "> "@ + l), seq!['\n']),
        text_block(TextFormat::Bullet, text, time) == join(lines(text).map_values(|l: Seq<char>| "- "@ + l), seq!['\n']),
        text_block(TextFormat::Checkbox, text, time) == join(lines(text).map_values(|l: Seq<char>| "- [ ] "@ + l), seq!['\n']),
{
    reveal_strlit("\n");
    assert("\n"@ =~= seq!['\n']);
}

/// Every line of a text is kept: a text that is a first line, a line feed
/// and more text gives the first line's entry line followed, on the next
/// lines, by the entry of the rest (for a timestamped entry, the rest's lines
/// indented by two spaces).
pub proof fn lemma_entry_keeps_every_line(a: Seq<char>, rest: Seq<char>, time: Seq<char>)
    requires
        forall|i: int| 0 <= i < a.len() ==> a[i] != '\n',
        lines(rest).len() > 0,
    ensures
        ({
            let text = a + seq!['\n'] + rest;
            let nl = seq!['\n'];
            &&& text_block(TextFormat::Checkbox, text, time)
                == "- [ ] "@ + strip_cr(a) + nl + text_block(TextFormat::Checkbox, rest, time)
            &&& text_block(TextFormat::Bullet, text, time)
                == "- "@ + strip_cr(a) + nl + text_block(TextFormat::Bullet, rest, time)
            &&& text_block(TextFormat::Blockquote, text, time)
                == "> "@ + strip_cr(a) + nl + text_block(TextFormat::Blockquote, rest, time)
            &&& text_block(TextFormat::Timestamped, text, time)
                == timestamp_head(time) + strip_cr(a) + concat_prefixed(lines(rest), "\n  "@)
        }),
{
    reveal_strlit("\n");
    let text = a + seq!['\n'] + rest;
    lemma_lines_cons(a, rest);
    let ls = lines(text);
    let lr = lines(rest);
    assert(ls == seq![strip_cr(a)] + lr);
    assert(ls.skip(1) =~= lr);
    assert("\n"@ =~= seq!['\n']);
    assert(prefix_each(ls, "- [ ] "@) =~= seq!["- [ ] "@ + strip_cr(a)] + prefix_each(lr, "- [ ] "@));
    assert(prefix_each(ls, "- "@) =~= seq!["- "@ + strip_cr(a)] + prefix_each(lr, "- "@));
    assert(prefix_each(ls, "> "@) =~= seq!["> "@ + strip_cr(a)] + prefix_each(lr, "> "@));
    lemma_join_cons("- [ ] "@ + strip_cr(a), prefix_each(lr, "- [ ] "@), "\n"@);
    lemma_join_cons("- "@ + strip_cr(a), prefix_each(lr, "- "@), "\n"@);
    lemma_join_cons("> "@ + strip_cr(a), prefix_each(lr, "> "@), "\n"@);
}

fn prefix_lines(ls: &Vec<Vec<char>>, prefix: &str) -> (r: Vec<char>)
    ensures
        r@ == join(prefix_each(ls.deep_view(), prefix@), "\n"@),
{
    let p = str_chars(prefix);
    let sep = str_chars("\n");
    join_prefixed(ls, &p, &sep)
}

fn text_block_chars(format: TextFormat, text: &str, time: &str) -> (r: Vec<char>)
    ensures
        r@ == text_block(format, text@, time@),
{
    let t = str_chars(text);
    let ls = lines_of(&t);
    match format {
        TextFormat::Timestamped => {
            let mut out: Vec<char> = Vec::new();
            push_str(&mut out, "- ");
            push_str(&mut out, time);
            push_str(&mut out, " — ");
            if ls.len() <= 1 {
                push_str(&mut out, text);
            } else {
                let mut first = ls[0].clone();
                proof {
                    lemma_chars_deep_view(ls@[0]);
                }
                out.append(&mut first);
                let ind = str_chars("\n  ");
                let mut rest = concat_prefixed_from(&ls, 1, &ind);
                out.append(&mut rest);
            }
            out
        },
        TextFormat::Blockquote => prefix_lines(&ls, "> "),
        TextFormat::Bullet => prefix_lines(&ls, "- "),
        TextFormat::Checkbox => prefix_lines(&ls, "- [ ] "),
    }
}

fn append_to_first_line(block: &Vec<char>, suffix: &str) -> (r: Vec<char>)
    ensures
        r@ == appended_to_first_line(block@, suffix@),
{
    let k = newline_index(block);
    if k < block.len() {
        let mut out = chars_range(block, 0, k);
        push_str(&mut out, " — ");
        push_str(&mut out, suffix);
        push_str(&mut out, "\n");
        let mut rest = chars_range(block, k + 1, block.len());
        out.append(&mut rest);
        assert(block@.subrange(0, k as int) =~= block@.take(k as int));
        assert(block@.subrange(k + 1, block@.len() as int) =~= block@.skip(k + 1));
        out
    } else {
        let mut out = block.clone();
        push_str(&mut out, " — ");
        push_str(&mut out, suffix);
        out
    }
}

fn apply_annotation(block: Vec<char>, format: TextFormat, annotation: Option<&str>) -> (r: Vec<char>)
    ensures
        r@ == annotated(block@, format, opt_view(annotation)),
{
    match annotation {
        None => block,
        Some(a) => {
            if a.is_empty() {
                block
            } else {
                match format {
                    TextFormat::Timestamped => append_to_first_line(&block, a),
                    TextFormat::Blockquote => {
                        let mut out = block;
                        push_str(&mut out, "\n> ");
                        push_str(&mut out, a);
                        out
                    },
                    TextFormat::Bullet => {
                        let mut out = block;
                        push_str(&mut out, "\n- ");
                        push_str(&mut out, a);
                        out
                    },
                    TextFormat::Checkbox => {
                        let mut out = block;
                        push_str(&mut out, "\n- [ ] ");
                        push_str(&mut out, a);
                        out
                    },
                }
            }
        },
    }
}

/// The entry for clipped `text` at `time` in the given format.
pub fn format_text(format: TextFormat, text: &str, time: &str) -> (r: String)
    ensures
        r@ == text_block(format, text@, time@),
{
    format_text_with_annotation(format, text, time, None)
}

/// The entry for clipped `text` at `time` in the given format, with the
/// user's note, when there is a non-empty one, added as the format puts it.
pub fn format_text_with_annotation(
    format: TextFormat,
    text: &str,
    time: &str,
    annotation: Option<&str>,
) -> (r: String)
    ensures
        r@ == annotated(text_block(format, text@, time@), format, opt_view(annotation)),
{
    let block = text_block_chars(format, text, time);
    let out = apply_annotation(block, format, annotation);
    string_from_chars(out.as_slice())
}

fn image_line_chars(time: &str, filename: &str) -> (r: Vec<char>)
    ensures
        r@ == image_line(time@, filename@),
{
    let mut out: Vec<char> = Vec::new();
    push_str(&mut out, "- ");
    push_str(&mut out, time);
    push_str(&mut out, " — ");
    push_str(&mut out, "![[");
    push_str(&mut out, filename);
    push_str(&mut out, "]]");
    out
}

/// The entry for an image saved as `filename`: always the timestamped
/// wikilink, whatever the text format.
pub fn format_image_link(time: &str, filename: &str) -> (r: String)
    ensures
        r@ == image_line(time@, filename@),
{
    format_image_link_with_annotation(time, filename, None)
}

/// The image entry with the user's note, when non-empty, after the link on the same line.
pub fn format_image_link_with_annotation(time: &str, filename: &str, annotation: Option<&str>) -> (r: String)
    ensures
        r@ == annotated(image_line(time@, filename@), TextFormat::Timestamped, opt_view(annotation)),
{
    let block = image_line_chars(time, filename);
    let out = apply_annotation(block, TextFormat::Timestamped, annotation);
    string_from_chars(out.as_slice())
}

/// The image entry with the user's note on its line and each line of the
/// recognized text below it, indented by two spaces.
pub fn format_image_link_with_ocr(
    time: &str,
    filename: &str,
    ocr_text: Option<&str>,
    annotation: Option<&str>,
) -> (r: String)
    ensures
        r@ == annotated(image_line(time@, filename@), TextFormat::Timestamped, opt_view(annotation))
            + ocr_lines(opt_view(ocr_text)),
{
    let block = image_line_chars(time, filename);
    let mut out = apply_annotation(block, TextFormat::Timestamped, annotation);
    match ocr_text {
        Some(t) => {
            let tc = str_chars(t);
            let ls = lines_of(&tc);
            let ind = str_chars("\n  ");
            let mut rest = concat_prefixed_from(&ls, 0, &ind);
            assert(ls.deep_view().skip(0) =~= ls.deep_view());
            out.append(&mut rest);
        },
        None => {
            assert(out@ + ocr_lines(None) =~= out@);
        },
    }
    string_from_chars(out.as_slice())
}

} // verus!
