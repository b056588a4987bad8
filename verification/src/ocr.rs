//! Local text recognition through the `tesseract` program: which language models to ask for,
//! how the installed models are listed, and how its TSV output becomes lines of words.
//! Running the program and reading its output happen outside; a word's confidence is kept as
//! the text that tesseract printed.

use crate::geometry::{PixelPoint, PixelRect, PixelSize};
use crate::kscreen::{number_or_zero_i32, number_or_zero_u32};
use crate::kwin_place::parse_u32;
use crate::model::{ErrorCode, PinoraError};
use crate::png_codec::{encode_rgba8_with, encoded_as};
use crate::scan::{
    has_prefix, parse_i32, pieces, slice_chars, split_chars, string_of, trim, trim_chars, views_of,
};
use crate::text::{chars_equal, chars_of, push_text, same_text};
use vstd::prelude::*;

verus! {

/// The language preset of a recognition.
#[derive(Debug, Clone, Copy, PartialEq, Eq, Structural)]
pub enum OcrLanguage {
    /// Every supported model that is installed, Simplified Chinese first.
    Auto,
    English,
    SimplifiedChinese,
}

pub open spec fn texts_of(v: Seq<String>) -> Seq<Seq<char>> {
    v.map_values(|s: String| s@)
}

pub open spec fn listed(models: Seq<Seq<char>>, name: Seq<char>) -> bool {
    exists|i: int| 0 <= i < models.len() && models[i] == name
}

/// The models that a preset asks for, given the installed ones; `None` where a model it needs
/// is missing. An explicit preset never falls back to another language.
pub open spec fn languages_for(language: OcrLanguage, models: Seq<Seq<char>>) -> Option<
    Seq<Seq<char>>,
> {
    let eng = listed(models, "eng"@);
    let chi = listed(models, "chi_sim"@);
    match language {
        OcrLanguage::Auto => if !eng && !chi {
            None
        } else {
            Some(
                (if chi {
                    seq!["chi_sim"@]
                } else {
                    Seq::empty()
                }) + (if eng {
                    seq!["eng"@]
                } else {
                    Seq::empty()
                }),
            )
        },
        OcrLanguage::English => if eng {
            Some(seq!["eng"@])
        } else {
            None
        },
        OcrLanguage::SimplifiedChinese => if chi {
            Some(seq!["chi_sim"@])
        } else {
            None
        },
    }
}

/// What a preset resolves to, in terms of the installed models: every model it asks for is
/// installed; Auto succeeds exactly when `eng` or `chi_sim` is installed and then asks for
/// each of the two that is, Simplified Chinese first; English and Simplified Chinese succeed
/// exactly when their own model is installed and ask for it alone.
pub proof fn presets_ask_for_installed_models(language: OcrLanguage, models: Seq<Seq<char>>)
    ensures
        languages_for(language, models) matches Some(langs) ==> forall|i: int|
            0 <= i < langs.len() ==> listed(models, #[trigger] langs[i]),
        language == OcrLanguage::Auto ==> (languages_for(language, models) is Some <==> (listed(
            models,
            "eng"@,
        ) || listed(models, "chi_sim"@))),
        language == OcrLanguage::Auto && listed(models, "eng"@) ==> (languages_for(
            language,
            models,
        ) matches Some(langs) && langs.contains("eng"@)),
        language == OcrLanguage::Auto && listed(models, "chi_sim"@) ==> (languages_for(
            language,
            models,
        ) matches Some(langs) && langs.len() >= 1 && langs[0] == "chi_sim"@),
        language == OcrLanguage::Auto ==> (languages_for(language, models) matches Some(langs)
            ==> langs.no_duplicates() && langs.len() <= 2),
        language == OcrLanguage::English ==> (languages_for(language, models) is Some <==> listed(
            models,
            "eng"@,
        )) && (languages_for(language, models) matches Some(langs) ==> langs == seq!["eng"@]),
        language == OcrLanguage::SimplifiedChinese ==> (languages_for(language, models) is Some
            <==> listed(models, "chi_sim"@)) && (languages_for(language, models) matches Some(
            langs,
        ) ==> langs == seq!["chi_sim"@]),
{
    reveal_strlit("eng");
    reveal_strlit("chi_sim");
    let eng = listed(models, "eng"@);
    let chi = listed(models, "chi_sim"@);
    if let Some(langs) = languages_for(language, models) {
        assert forall|i: int| 0 <= i < langs.len() implies listed(models, #[trigger] langs[i]) by {
            if language == OcrLanguage::Auto && chi && eng && i == 1 {
                assert(langs[1] == "eng"@);
            }
        }
        if language == OcrLanguage::Auto && eng {
            if chi {
                assert(langs[1] == "eng"@);
            } else {
                assert(langs[0] == "eng"@);
            }
        }
        if language == OcrLanguage::Auto && chi && eng {
            assert("eng"@ != "chi_sim"@) by {
                assert("eng"@.len() != "chi_sim"@.len());
            }
            assert(langs[0] != langs[1]);
        }
    }
}

pub open spec fn missing_model_message(language: OcrLanguage) -> Seq<char> {
    match language {
        OcrLanguage::Auto => "OCR 自动语言需要本机安装 eng 或 chi_sim 模型"@,
        OcrLanguage::English => "OCR English 预设需要本机安装 eng 模型"@,
        OcrLanguage::SimplifiedChinese => "OCR SimplifiedChinese 预设需要本机安装 chi_sim 模型"@,
    }
}

fn has_model(models: &Vec<String>, name: &str) -> (found: bool)
    ensures
        found == listed(texts_of(models@), name@),
{
    let mut i: usize = 0;
    while i < models.len()
        invariant
            i <= models@.len(),
            forall|k: int| 0 <= k < i ==> models@[k]@ != name@,
        decreases models@.len() - i,
    {
        if same_text(models[i].as_str(), name) {
            assert(texts_of(models@)[i as int] == name@);
            return true;
        }
        i += 1;
    }
    assert forall|k: int| 0 <= k < texts_of(models@).len() implies texts_of(models@)[k]
        != name@ by {
        assert(models@[k]@ != name@);
    }
    false
}

/// The models to run for `language`, from the installed model names `models`.
pub fn resolve_languages(language: OcrLanguage, models: &Vec<String>) -> (r: Result<
    Vec<String>,
    PinoraError,
>)
    ensures
        match languages_for(language, texts_of(models@)) {
            Some(langs) => r matches Ok(v) && texts_of(v@) == langs,
            None => r matches Err(e) && e.code == ErrorCode::CapabilityUnavailable && e.message@
                == missing_model_message(language),
        },
{
    let eng = has_model(models, "eng");
    let chi = has_model(models, "chi_sim");
    let mut out: Vec<String> = Vec::new();
    match language {
        OcrLanguage::Auto => {
            if chi {
                out.push("chi_sim".to_owned());
            }
            if eng {
                out.push("eng".to_owned());
            }
            if out.len() == 0 {
                return Err(
                    PinoraError::new(
                        ErrorCode::CapabilityUnavailable,
                        "OCR 自动语言需要本机安装 eng 或 chi_sim 模型",
                    ),
                );
            }
        },
        OcrLanguage::English => {
            if !eng {
                return Err(
                    PinoraError::new(
                        ErrorCode::CapabilityUnavailable,
                        "OCR English 预设需要本机安装 eng 模型",
                    ),
                );
            }
            out.push("eng".to_owned());
        },
        OcrLanguage::SimplifiedChinese => {
            if !chi {
                return Err(
                    PinoraError::new(
                        ErrorCode::CapabilityUnavailable,
                        "OCR SimplifiedChinese 预设需要本机安装 chi_sim 模型",
                    ),
                );
            }
            out.push("chi_sim".to_owned());
        },
    }
    assert(texts_of(out@) =~= languages_for(language, texts_of(models@)).unwrap());
    Ok(out)
}

/// `parts` joined with `sep` between neighbours.
pub open spec fn joined_with(parts: Seq<Seq<char>>, sep: Seq<char>) -> Seq<char>
    decreases parts.len(),
{
    if parts.len() == 0 {
        Seq::empty()
    } else if parts.len() == 1 {
        parts[0]
    } else {
        joined_with(parts.drop_last(), sep) + sep + parts.last()
    }
}

/// The strings of `parts` joined with `sep`.
pub fn join_strings(parts: &Vec<String>, sep: &str) -> (s: String)
    ensures
        s@ == joined_with(texts_of(parts@), sep@),
{
    let mut s = String::new();
    let mut i: usize = 0;
    while i < parts.len()
        invariant
            i <= parts@.len(),
            s@ == joined_with(texts_of(parts@.subrange(0, i as int)), sep@),
        decreases parts@.len() - i,
    {
        let ghost before = s@;
        if i > 0 {
            push_text(&mut s, sep);
        }
        push_text(&mut s, parts[i].as_str());
        assert(texts_of(parts@.subrange(0, i + 1)).drop_last() =~= texts_of(
            parts@.subrange(0, i as int),
        ));
        assert(texts_of(parts@.subrange(0, i + 1)).last() == parts@[i as int]@);
        if i == 0 {
            assert(texts_of(parts@.subrange(0, 1)) =~= seq![parts@[0]@]);
        }
        i += 1;
    }
    assert(parts@.subrange(0, parts@.len() as int) =~= parts@);
    s
}

/// The `-l` argument of tesseract: the model names joined with `+`.
pub fn language_arg(langs: &Vec<String>) -> (arg: String)
    ensures
        arg@ == joined_with(texts_of(langs@), "+"@),
{
    join_strings(langs, "+")
}

/// The engine label of a result: `tesseract-cli:` and the `-l` argument.
pub fn engine_label(lang_arg: &str) -> (label: String)
    ensures
        label@ == "tesseract-cli:"@ + lang_arg@,
{
    let mut s = String::new();
    push_text(&mut s, "tesseract-cli:");
    push_text(&mut s, lang_arg);
    s
}

/// The model names that `tesseract --list-langs` prints: every line after the first, trimmed,
/// the empty ones left out.
pub open spec fn listed_models_from(lines: Seq<Seq<char>>) -> Seq<Seq<char>>
    decreases lines.len(),
{
    if lines.len() <= 1 {
        Seq::empty()
    } else {
        let before = listed_models_from(lines.drop_last());
        let t = trim(lines.last());
        if t.len() == 0 {
            before
        } else {
            before.push(t)
        }
    }
}

pub open spec fn listed_models(output: Seq<char>) -> Seq<Seq<char>> {
    listed_models_from(pieces(output, '\n'))
}

/// The model names in the output of `tesseract --list-langs`.
pub fn parse_language_list(output: &str) -> (models: Vec<String>)
    ensures
        texts_of(models@) == listed_models(output@),
{
    let lines = split_chars(&chars_of(output), '\n');
    let mut models: Vec<String> = Vec::new();
    let mut i: usize = 1;
    assert(texts_of(models@) =~= listed_models_from(views_of(lines@).subrange(0, 1)));
    while i < lines.len()
        invariant
            1 <= i <= lines@.len(),
            texts_of(models@) == listed_models_from(views_of(lines@).subrange(0, i as int)),
        decreases lines@.len() - i,
    {
        let t = trim_chars(&lines[i]);
        assert(views_of(lines@).subrange(0, i + 1).drop_last() =~= views_of(lines@).subrange(
            0,
            i as int,
        ));
        if t.len() > 0 {
            let ghost before = models@;
            models.push(string_of(&t));
            assert(texts_of(models@) =~= texts_of(before).push(t@));
        }
        i += 1;
    }
    assert(views_of(lines@).subrange(0, lines@.len() as int) =~= views_of(lines@));
    models
}

/// A model file in a tessdata directory: `<name>.traineddata`, except the orientation and
/// equation models `osd` and `equ`.
pub open spec fn model_of_file(file_name: Seq<char>) -> Option<Seq<char>> {
    let suffix = ".traineddata"@;
    if file_name.len() >= suffix.len() && file_name.subrange(
        file_name.len() - suffix.len(),
        file_name.len() as int,
    ) == suffix {
        let stem = file_name.subrange(0, file_name.len() - suffix.len());
        if stem == "osd"@ || stem == "equ"@ {
            None
        } else {
            Some(stem)
        }
    } else {
        None
    }
}

/// The model that a tessdata file holds, if it is a language model.
pub fn tessdata_model(file_name: &str) -> (model: Option<String>)
    ensures
        match model_of_file(file_name@) {
            Some(m) => model matches Some(s) && s@ == m,
            None => model is None,
        },
{
    let name = chars_of(file_name);
    let suffix = chars_of(".traineddata");
    if name.len() < suffix.len() {
        return None;
    }
    let cut = name.len() - suffix.len();
    let tail = slice_chars(&name, cut, name.len());
    if !chars_equal(&tail, &suffix) {
        return None;
    }
    let stem = slice_chars(&name, 0, cut);
    if chars_equal(&stem, &chars_of("osd")) || chars_equal(&stem, &chars_of("equ")) {
        return None;
    }
    Some(string_of(&stem))
}

/// One recognised word: its text, the confidence text that tesseract printed, and its box.
#[derive(Debug, Clone)]
pub struct OcrWord {
    pub text: String,
    pub confidence: String,
    pub bbox: PixelRect,
}

/// The words of one text line, with the box that covers them all.
#[derive(Debug, Clone)]
pub struct OcrLine {
    pub words: Vec<OcrWord>,
    pub bbox: PixelRect,
}

pub struct WordView {
    pub text: Seq<char>,
    pub confidence: Seq<char>,
    pub bbox: PixelRect,
}

pub struct LineView {
    pub words: Seq<WordView>,
    pub bbox: PixelRect,
}

pub open spec fn word_view(w: OcrWord) -> WordView {
    WordView { text: w.text@, confidence: w.confidence@, bbox: w.bbox }
}

pub open spec fn words_view(ws: Seq<OcrWord>) -> Seq<WordView> {
    ws.map_values(|w: OcrWord| word_view(w))
}

pub open spec fn line_view(l: OcrLine) -> LineView {
    LineView { words: words_view(l.words@), bbox: l.bbox }
}

pub open spec fn lines_view(ls: Seq<OcrLine>) -> Seq<LineView> {
    ls.map_values(|l: OcrLine| line_view(l))
}

pub open spec fn min_int(a: int, b: int) -> int {
    if a <= b {
        a
    } else {
        b
    }
}

pub open spec fn max_int(a: int, b: int) -> int {
    if a >= b {
        a
    } else {
        b
    }
}

/// Left, top, right and bottom edges of the union of the boxes of `ws`.
pub open spec fn union_edges(ws: Seq<WordView>) -> (int, int, int, int)
    decreases ws.len(),
{
    if ws.len() == 0 {
        (0, 0, 0, 0)
    } else {
        let r = ws.last().bbox;
        let right = r.origin.x + r.size.width;
        let bottom = r.origin.y + r.size.height;
        if ws.len() == 1 {
            (r.origin.x as int, r.origin.y as int, right, bottom)
        } else {
            let e = union_edges(ws.drop_last());
            (
                min_int(e.0, r.origin.x as int),
                min_int(e.1, r.origin.y as int),
                max_int(e.2, right),
                max_int(e.3, bottom),
            )
        }
    }
}

pub open spec fn saturating_u32(v: int) -> u32 {
    if v > u32::MAX {
        u32::MAX
    } else {
        v as u32
    }
}

/// The smallest box that covers the boxes of `ws` (a size beyond `u32` saturates).
pub open spec fn union_box(ws: Seq<WordView>) -> PixelRect {
    let e = union_edges(ws);
    PixelRect {
        origin: PixelPoint { x: e.0 as i32, y: e.1 as i32 },
        size: PixelSize { width: saturating_u32(e.2 - e.0), height: saturating_u32(e.3 - e.1) },
    }
}

pub open spec fn line_of(ws: Seq<WordView>) -> LineView {
    LineView { words: ws, bbox: union_box(ws) }
}

/// A TSV row that describes a word: at least twelve tab-separated columns, level 5 in the
/// first, and non-blank text in the twelfth and those after it (joined by tabs, trimmed).
/// Block, paragraph and line numbers group the words; a number that does not parse counts as 0.
pub open spec fn row_word(row: Seq<char>) -> Option<((i32, i32, i32), WordView)> {
    let cols = pieces(row, '\t');
    if trim(row).len() == 0 || cols.len() < 12 || number_or_zero_i32(cols[0]) != 5 {
        None
    } else {
        let text = trim(joined_with(cols.subrange(11, cols.len() as int), seq!['\t']));
        if text.len() == 0 {
            None
        } else {
            Some(
                (
                    (
                        number_or_zero_i32(cols[2]),
                        number_or_zero_i32(cols[3]),
                        number_or_zero_i32(cols[4]),
                    ),
                    WordView {
                        text,
                        confidence: cols[10],
                        bbox: PixelRect {
                            origin: PixelPoint {
                                x: number_or_zero_i32(cols[6]),
                                y: number_or_zero_i32(cols[7]),
                            },
                            size: PixelSize {
                                width: number_or_zero_u32(cols[8]),
                                height: number_or_zero_u32(cols[9]),
                            },
                        },
                    },
                ),
            )
        }
    }
}

pub struct TsvState {
    pub lines: Seq<LineView>,
    pub key: Option<(i32, i32, i32)>,
    pub words: Seq<WordView>,
}

/// Adds a row: a word with a new line key closes the words gathered so far into a line.
pub open spec fn tsv_step(st: TsvState, row: Seq<char>) -> TsvState {
    match row_word(row) {
        None => st,
        Some((k, w)) => if st.key != Some(k) {
            TsvState {
                lines: if st.words.len() > 0 {
                    st.lines.push(line_of(st.words))
                } else {
                    st.lines
                },
                key: Some(k),
                words: seq![w],
            }
        } else {
            TsvState { words: st.words.push(w), ..st }
        },
    }
}

pub open spec fn tsv_rows(rows: Seq<Seq<char>>) -> TsvState
    decreases rows.len(),
{
    if rows.len() == 0 {
        TsvState { lines: Seq::empty(), key: None, words: Seq::empty() }
    } else {
        tsv_step(tsv_rows(rows.drop_last()), rows.last())
    }
}

/// The lines that tesseract's TSV output describes: every row after the header is read, and
/// the words left at the end make the last line.
pub open spec fn tsv_lines(tsv: Seq<char>) -> Seq<LineView> {
    let rows = pieces(tsv, '\n');
    let st = tsv_rows(rows.subrange(1, rows.len() as int));
    if st.words.len() > 0 {
        st.lines.push(line_of(st.words))
    } else {
        st.lines
    }
}

proof fn lemma_rows_step(rows: Seq<Seq<char>>, m: int)
    requires
        0 <= m < rows.len(),
    ensures
        tsv_rows(rows.take(m + 1)) == tsv_step(tsv_rows(rows.take(m)), rows[m]),
{
    assert(rows.take(m + 1).drop_last() =~= rows.take(m));
    assert(rows.take(m + 1).last() == rows[m]);
}

/// Rows that describe no word leave the reading where it was.
proof fn lemma_rows_skipped(rows: Seq<Seq<char>>, from: int, to: int)
    requires
        0 <= from <= to <= rows.len(),
        forall|m: int| from <= m < to ==> row_word(#[trigger] rows[m]) is None,
    ensures
        tsv_rows(rows.take(to)) == tsv_rows(rows.take(from)),
    decreases to - from,
{
    if from < to {
        lemma_rows_skipped(rows, from, to - 1);
        lemma_rows_step(rows, to - 1);
    }
}

/// The block, paragraph and line numbers of a row: its third, fourth and fifth columns.
pub open spec fn row_place(row: Seq<char>) -> (i32, i32, i32) {
    let cols = pieces(row, '\t');
    (number_or_zero_i32(cols[2]), number_or_zero_i32(cols[3]), number_or_zero_i32(cols[4]))
}

/// Words are grouped into lines by block, paragraph and line together. When a word row
/// follows another (with only rows that describe no word between them): if the two differ
/// in block, paragraph or line number, the earlier word ends the line it is on and the later
/// one starts a new line; if all three agree, the later word joins the earlier one's line.
pub proof fn words_are_grouped_by_block_paragraph_and_line(rows: Seq<Seq<char>>, i: int, j: int)
    requires
        0 <= i < j < rows.len(),
        row_word(rows[i]) is Some,
        row_word(rows[j]) is Some,
        forall|m: int| i < m < j ==> row_word(#[trigger] rows[m]) is None,
    ensures
        ({
            let before = tsv_rows(rows.take(j));
            let after = tsv_rows(rows.take(j + 1));
            let wj = row_word(rows[j]).unwrap().1;
            &&& before.words.len() > 0
            &&& before.words.last() == row_word(rows[i]).unwrap().1
            &&& row_place(rows[i]) != row_place(rows[j]) ==> after.lines == before.lines.push(
                line_of(before.words),
            ) && after.words == seq![wj]
            &&& row_place(rows[i]) == row_place(rows[j]) ==> after.lines == before.lines
                && after.words == before.words.push(wj)
        }),
{
    lemma_rows_step(rows, i);
    lemma_rows_skipped(rows, i + 1, j);
    lemma_rows_step(rows, j);
    let st = tsv_rows(rows.take(i));
    let (ki, wi) = row_word(rows[i]).unwrap();
    let after_i = tsv_step(st, rows[i]);
    if st.key != Some(ki) {
        assert(after_i.words == seq![wi]);
    } else {
        assert(after_i.words == st.words.push(wi));
    }
    assert(after_i.key == Some(ki));
}

fn join_fields(cols: &Vec<Vec<char>>, from: usize, sep: char) -> (out: Vec<char>)
    requires
        from <= cols@.len(),
    ensures
        out@ == joined_with(views_of(cols@).subrange(from as int, cols@.len() as int), seq![sep]),
{
    let mut out: Vec<char> = Vec::new();
    let mut i: usize = from;
    while i < cols.len()
        invariant
            from <= i <= cols@.len(),
            out@ == joined_with(views_of(cols@).subrange(from as int, i as int), seq![sep]),
        decreases cols@.len() - i,
    {
        let ghost before = out@;
        if i > from {
            out.push(sep);
        }
        let piece = &cols[i];
        let mut k: usize = 0;
        let ghost base = out@;
        while k < piece.len()
            invariant
                k <= piece@.len(),
                out@ == base + piece@.subrange(0, k as int),
            decreases piece@.len() - k,
        {
            out.push(piece[k]);
            assert(out@ =~= base + piece@.subrange(0, k + 1));
            k += 1;
        }
        assert(piece@.subrange(0, piece@.len() as int) =~= piece@);
        let ghost sub = views_of(cols@).subrange(from as int, i + 1);
        assert(sub.drop_last() =~= views_of(cols@).subrange(from as int, i as int));
        assert(sub.last() == cols@[i as int]@);
        if i == from {
            assert(sub =~= seq![cols@[i as int]@]);
        }
        assert(out@ =~= joined_with(sub, seq![sep]));
        i += 1;
    }
    out
}

fn number_i32(t: &Vec<char>) -> (v: i32)
    ensures
        v == number_or_zero_i32(t@),
{
    match parse_i32(t) {
        Some(v) => v,
        None => 0,
    }
}

fn number_u32(t: &Vec<char>) -> (v: u32)
    ensures
        v == number_or_zero_u32(t@),
{
    match parse_u32(t) {
        Some(v) => v,
        None => 0,
    }
}

fn parse_row(row: &Vec<char>) -> (r: Option<((i32, i32, i32), OcrWord)>)
    ensures
        match row_word(row@) {
            Some((k, w)) => r matches Some((k2, w2)) && k2 == k && word_view(w2) == w,
            None => r is None,
        },
{
    let trimmed = trim_chars(row);
    if trimmed.len() == 0 {
        return None;
    }
    let cols = split_chars(row, '\t');
    proof {
        assert(views_of(cols@).len() == cols@.len());
    }
    if cols.len() < 12 {
        return None;
    }
    assert(forall|k: int| 0 <= k < cols@.len() ==> #[trigger] views_of(cols@)[k] == cols@[k]@);
    if number_i32(&cols[0]) != 5 {
        return None;
    }
    let joined = join_fields(&cols, 11, '\t');
    let text = trim_chars(&joined);
    if text.len() == 0 {
        return None;
    }
    let key = (number_i32(&cols[2]), number_i32(&cols[3]), number_i32(&cols[4]));
    let bbox = PixelRect {
        origin: PixelPoint { x: number_i32(&cols[6]), y: number_i32(&cols[7]) },
        size: PixelSize { width: number_u32(&cols[8]), height: number_u32(&cols[9]) },
    };
    let word = OcrWord { text: string_of(&text), confidence: string_of(&cols[10]), bbox };
    Some((key, word))
}

/// The box that covers all the words' boxes.
fn union_of(words: &Vec<OcrWord>) -> (r: PixelRect)
    requires
        words@.len() >= 1,
    ensures
        r == union_box(words_view(words@)),
{
    let first = words[0].bbox;
    let mut left: i64 = first.origin.x as i64;
    let mut top: i64 = first.origin.y as i64;
    let mut right: i64 = first.origin.x as i64 + first.size.width as i64;
    let mut bottom: i64 = first.origin.y as i64 + first.size.height as i64;
    let mut i: usize = 1;
    assert(words_view(words@).subrange(0, 1) =~= seq![word_view(words@[0])]);
    while i < words.len()
        invariant
            1 <= i <= words@.len(),
            union_edges(words_view(words@).subrange(0, i as int)) == (
                left as int,
                top as int,
                right as int,
                bottom as int,
            ),
            i32::MIN <= left <= i32::MAX,
            i32::MIN <= top <= i32::MAX,
            left <= right <= i32::MAX + u32::MAX,
            top <= bottom <= i32::MAX + u32::MAX,
        decreases words@.len() - i,
    {
        let b = words[i].bbox;
        let r: i64 = b.origin.x as i64 + b.size.width as i64;
        let d: i64 = b.origin.y as i64 + b.size.height as i64;
        let ghost sub = words_view(words@).subrange(0, i + 1);
        assert(sub.drop_last() =~= words_view(words@).subrange(0, i as int));
        assert(sub.last() == word_view(words@[i as int]));
        if (b.origin.x as i64) < left {
            left = b.origin.x as i64;
        }
        if (b.origin.y as i64) < top {
            top = b.origin.y as i64;
        }
        if r > right {
            right = r;
        }
        if d > bottom {
            bottom = d;
        }
        i += 1;
    }
    assert(words_view(words@).subrange(0, words@.len() as int) =~= words_view(words@));
    let w: i64 = right - left;
    let h: i64 = bottom - top;
    let width: u32 = if w > u32::MAX as i64 {
        u32::MAX
    } else {
        w as u32
    };
    let height: u32 = if h > u32::MAX as i64 {
        u32::MAX
    } else {
        h as u32
    };
    PixelRect { origin: PixelPoint { x: left as i32, y: top as i32 }, size: PixelSize { width, height } }
}

fn close_line(lines: &mut Vec<OcrLine>, words: Vec<OcrWord>)
    requires
        words@.len() >= 1,
    ensures
        lines_view(final(lines)@) == lines_view(old(lines)@).push(line_of(words_view(words@))),
{
    let bbox = union_of(&words);
    let ghost before = lines@;
    let ghost ws = words@;
    lines.push(OcrLine { words, bbox });
    assert(lines_view(lines@) =~= lines_view(before).push(line_of(words_view(ws))));
}

/// The lines of words in tesseract's TSV output.
pub fn parse_tsv(tsv: &str) -> (r: Result<Vec<OcrLine>, PinoraError>)
    ensures
        r matches Ok(lines) && lines_view(lines@) == tsv_lines(tsv@),
{
    let rows = split_chars(&chars_of(tsv), '\n');
    let ghost all = views_of(rows@);
    let mut lines: Vec<OcrLine> = Vec::new();
    let mut key: Option<(i32, i32, i32)> = None;
    let mut words: Vec<OcrWord> = Vec::new();
    let mut i: usize = 1;
    assert(all.subrange(1, 1) =~= Seq::<Seq<char>>::empty());
    assert(lines_view(lines@) =~= Seq::<LineView>::empty());
    assert(words_view(words@) =~= Seq::<WordView>::empty());
    while i < rows.len()
        invariant
            1 <= i <= rows@.len(),
            all == views_of(rows@),
            all == pieces(tsv@, '\n'),
            ({
                let st = tsv_rows(all.subrange(1, i as int));
                &&& lines_view(lines@) == st.lines
                &&& key == st.key
                &&& words_view(words@) == st.words
            }),
        decreases rows@.len() - i,
    {
        let ghost sub = all.subrange(1, i + 1);
        assert(sub.drop_last() =~= all.subrange(1, i as int));
        assert(sub.last() == rows@[i as int]@);
        match parse_row(&rows[i]) {
            Some((k, w)) => {
                let same = match key {
                    Some(c) => c.0 == k.0 && c.1 == k.1 && c.2 == k.2,
                    None => false,
                };
                if !same {
                    if words.len() > 0 {
                        let mut done: Vec<OcrWord> = Vec::new();
                        std::mem::swap(&mut done, &mut words);
                        close_line(&mut lines, done);
                    } else {
                        words = Vec::new();
                    }
                    key = Some(k);
                    let ghost before = words@;
                    words.push(w);
                    assert(words_view(words@) =~= seq![word_view(w)]);
                } else {
                    let ghost before = words@;
                    words.push(w);
                    assert(words_view(words@) =~= words_view(before).push(word_view(w)));
                }
            },
            None => {},
        }
        i += 1;
    }
    assert(all.subrange(1, all.len() as int) =~= all.subrange(1, i as int));
    if words.len() > 0 {
        close_line(&mut lines, words);
    }
    Ok(lines)
}

/// The text of a line: its words joined by spaces.
pub open spec fn line_text(l: LineView) -> Seq<char> {
    joined_with(l.words.map_values(|w: WordView| w.text), seq![' '])
}

/// The full text: the lines' texts joined by newlines.
pub open spec fn full_text_of(ls: Seq<LineView>) -> Seq<char> {
    joined_with(ls.map_values(|l: LineView| line_text(l)), seq!['\n'])
}

impl OcrLine {
    /// The line's words joined by spaces.
    pub fn text(&self) -> (t: String)
        ensures
            t@ == line_text(line_view(*self)),
    {
        let ghost texts = line_view(*self).words.map_values(|w: WordView| w.text);
        let mut t = String::new();
        let mut i: usize = 0;
        while i < self.words.len()
            invariant
                i <= self.words@.len(),
                texts == line_view(*self).words.map_values(|w: WordView| w.text),
                texts.len() == self.words@.len(),
                t@ == joined_with(texts.subrange(0, i as int), seq![' ']),
            decreases self.words@.len() - i,
        {
            if i > 0 {
                push_text(&mut t, " ");
                proof {
                    reveal_strlit(" ");
                }
            }
            push_text(&mut t, self.words[i].text.as_str());
            assert(texts[i as int] == self.words@[i as int].text@);
            assert(texts.subrange(0, i + 1).drop_last() =~= texts.subrange(0, i as int));
            if i == 0 {
                assert(texts.subrange(0, 1) =~= seq![texts[0]]);
            }
            assert(t@ =~= joined_with(texts.subrange(0, i + 1), seq![' ']));
            i += 1;
        }
        assert(texts.subrange(0, texts.len() as int) =~= texts);
        t
    }
}

/// A recognition result: the lines, the models used, the engine label and the full text.
#[derive(Debug, Clone)]
pub struct OcrResult {
    pub lines: Vec<OcrLine>,
    pub languages: Vec<String>,
    pub engine: String,
    pub full_text: String,
}

impl OcrResult {
    pub fn from_lines(lines: Vec<OcrLine>, languages: Vec<String>, engine: &str) -> (r: OcrResult)
        ensures
            r.lines@ == lines@,
            r.languages@ == languages@,
            r.engine@ == engine@,
            r.full_text@ == full_text_of(lines_view(lines@)),
    {
        let ghost texts = lines_view(lines@).map_values(|l: LineView| line_text(l));
        let mut full = String::new();
        let mut i: usize = 0;
        while i < lines.len()
            invariant
                i <= lines@.len(),
                texts == lines_view(lines@).map_values(|l: LineView| line_text(l)),
                texts.len() == lines@.len(),
                full@ == joined_with(texts.subrange(0, i as int), seq!['\n']),
            decreases lines@.len() - i,
        {
            if i > 0 {
                push_text(&mut full, "\n");
                proof {
                    reveal_strlit("\n");
                }
            }
            let t = lines[i].text();
            push_text(&mut full, t.as_str());
            assert(texts[i as int] == line_text(line_view(lines@[i as int])));
            assert(texts.subrange(0, i + 1).drop_last() =~= texts.subrange(0, i as int));
            if i == 0 {
                assert(texts.subrange(0, 1) =~= seq![texts[0]]);
            }
            assert(full@ =~= joined_with(texts.subrange(0, i + 1), seq!['\n']));
            i += 1;
        }
        assert(texts.subrange(0, texts.len() as int) =~= texts);
        OcrResult { lines, languages, engine: engine.to_owned(), full_text: full }
    }
}

/// The PNG that OCR hands to the recogniser: the image as 8-bit RGBA.
pub fn encode_png_bytes(width: u32, height: u32, rgba: &[u8]) -> (r: Result<Vec<u8>, PinoraError>)
    requires
        4 * width * height <= usize::MAX,
    ensures
        encoded_as(r, width, height, rgba@, "ocr png header: "@, "ocr png data: "@),
{
    encode_rgba8_with(width, height, rgba, "ocr png header: ", "ocr png data: ")
}

} // verus!
