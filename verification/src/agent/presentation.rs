//! How a run is shown: limits, and the styles of its parts.

use vstd::prelude::*;
use vstd::string::*;

use crate::text::{
    after, all_chars, begins, chars_of, hex_digit, is_hex, is_whitespace, same_text, starts_with,
    strip_prefix, strip_suffix, text_of, trim, trim_start, trimmed, trimmed_start,
    trimmed_start_facts, whitespace, without_prefix, without_suffix,
};
use crate::value::{contents, Abstract};

verus! {

/// How much of a tool's output is shown.
#[derive(Clone, Copy, Debug, Eq, PartialEq, Structural)]
pub struct ToolOutputPresentation {
    pub lines: u32,
    pub chars: u32,
}

impl Default for ToolOutputPresentation {
    fn default() -> (r: ToolOutputPresentation)
        ensures
            r.lines == 10,
            r.chars == 500,
    {
        ToolOutputPresentation { lines: 10, chars: 500 }
    }
}

#[derive(Clone, Copy, Debug, Eq, PartialEq, Structural)]
pub struct ToolPresentation {
    pub frame: bool,
}

impl Default for ToolPresentation {
    fn default() -> (r: ToolPresentation)
        ensures
            !r.frame,
    {
        ToolPresentation { frame: false }
    }
}

#[derive(Clone, Copy, Debug, Eq, PartialEq, Structural)]
pub struct ModelGenerationPresentation {
    pub details: bool,
}

impl Default for ModelGenerationPresentation {
    fn default() -> (r: ModelGenerationPresentation)
        ensures
            !r.details,
    {
        ModelGenerationPresentation { details: false }
    }
}

/// The styles of the parts of a run.
#[derive(Clone, Debug, Eq, PartialEq)]
pub struct PresentationColors {
    pub rule: String,
    pub run: String,
    pub run_id: String,
    pub status_success: String,
    pub status_failure: String,
    pub status_pending: String,
    pub operation: String,
    pub tool: String,
    pub ordinal: String,
    pub field: String,
    pub muted: String,
    pub json_key: String,
    pub json_string: String,
    pub json_number: String,
    pub json_boolean: String,
    pub json_null: String,
    pub markdown_heading: String,
    pub markdown_code: String,
    pub markdown_inline_code: String,
    pub markdown_strong: String,
    pub markdown_emphasis: String,
    pub markdown_link: String,
    pub markdown_quote: String,
    pub markdown_bullet: String,
    pub markdown_rule: String,
    pub input_rule: String,
    pub input_background: String,
    pub input_prompt: String,
    pub input_hint: String,
    pub input_text: String,
    pub input_activity: String,
    pub input_selected: String,
}

/// How a run is shown.
#[derive(Clone, Debug, Eq, PartialEq)]
pub struct AgentPresentation {
    pub tool_output: ToolOutputPresentation,
    pub tool: ToolPresentation,
    pub colors: PresentationColors,
    pub model_generation: ModelGenerationPresentation,
}

impl Default for AgentPresentation {
    fn default() -> (r: AgentPresentation)
        ensures
            r.tool_output == (ToolOutputPresentation { lines: 10, chars: 500 }),
            r.tool == (ToolPresentation { frame: false }),
            r.colors.fields() == default_styles(),
            r.model_generation == (ModelGenerationPresentation { details: false }),
    {
        AgentPresentation {
            tool_output: ToolOutputPresentation::default(),
            tool: ToolPresentation::default(),
            colors: PresentationColors::default(),
            model_generation: ModelGenerationPresentation::default(),
        }
    }
}

/// The style of each part unless another is chosen.
pub open spec fn default_styles() -> Seq<(Seq<char>, Seq<char>)> {
    seq![
        ("rule"@, "dim"@),
        ("run"@, "bold #FF00FF"@),
        ("run_id"@, "bold #FFFFFF"@),
        ("status_success"@, "bold #7BD88F"@),
        ("status_failure"@, "bold #FF0000"@),
        ("status_pending"@, "bold #FFFF00"@),
        ("operation"@, "bold #00FFFF"@),
        ("tool"@, "bold #00FFFF"@),
        ("ordinal"@, "dim"@),
        ("field"@, "bold #8AA2D8"@),
        ("muted"@, "dim"@),
        ("json_key"@, "#00FFFF"@),
        ("json_string"@, "#7BD88F"@),
        ("json_number"@, "#FFFF00"@),
        ("json_boolean"@, "#FF00FF"@),
        ("json_null"@, "dim"@),
        ("markdown_heading"@, "bold #00FFFF"@),
        ("markdown_code"@, "dim"@),
        ("markdown_inline_code"@, "#FFFF00"@),
        ("markdown_strong"@, "bold"@),
        ("markdown_emphasis"@, "italic"@),
        ("markdown_link"@, "#8AA2D8"@),
        ("markdown_quote"@, "dim"@),
        ("markdown_bullet"@, "#00FFFF"@),
        ("markdown_rule"@, "dim"@),
        ("input_rule"@, "oklch(0.439 0 0)"@),
        ("input_background"@, "oklch(0.269 0 0)"@),
        ("input_prompt"@, "bold oklch(0.718 0.202 349.761)"@),
        ("input_hint"@, "dim oklch(0.823 0.12 346.018)"@),
        ("input_text"@, "oklch(0.936 0.032 17.717)"@),
        ("input_activity"@, "oklch(0.823 0.12 346.018)"@),
        ("input_selected"@, "bold oklch(0.518 0.253 323.949)"@),
    ]
}

impl Default for PresentationColors {
    fn default() -> (r: PresentationColors)
        ensures
            r.fields() == default_styles(),
    {
        PresentationColors {
            rule: "dim".to_owned(),
            run: "bold #FF00FF".to_owned(),
            run_id: "bold #FFFFFF".to_owned(),
            status_success: "bold #7BD88F".to_owned(),
            status_failure: "bold #FF0000".to_owned(),
            status_pending: "bold #FFFF00".to_owned(),
            operation: "bold #00FFFF".to_owned(),
            tool: "bold #00FFFF".to_owned(),
            ordinal: "dim".to_owned(),
            field: "bold #8AA2D8".to_owned(),
            muted: "dim".to_owned(),
            json_key: "#00FFFF".to_owned(),
            json_string: "#7BD88F".to_owned(),
            json_number: "#FFFF00".to_owned(),
            json_boolean: "#FF00FF".to_owned(),
            json_null: "dim".to_owned(),
            markdown_heading: "bold #00FFFF".to_owned(),
            markdown_code: "dim".to_owned(),
            markdown_inline_code: "#FFFF00".to_owned(),
            markdown_strong: "bold".to_owned(),
            markdown_emphasis: "italic".to_owned(),
            markdown_link: "#8AA2D8".to_owned(),
            markdown_quote: "dim".to_owned(),
            markdown_bullet: "#00FFFF".to_owned(),
            markdown_rule: "dim".to_owned(),
            input_rule: "oklch(0.439 0 0)".to_owned(),
            input_background: "oklch(0.269 0 0)".to_owned(),
            input_prompt: "bold oklch(0.718 0.202 349.761)".to_owned(),
            input_hint: "dim oklch(0.823 0.12 346.018)".to_owned(),
            input_text: "oklch(0.936 0.032 17.717)".to_owned(),
            input_activity: "oklch(0.823 0.12 346.018)".to_owned(),
            input_selected: "bold oklch(0.518 0.253 323.949)".to_owned(),
        }
    }
}

// ---------------------------------------------------------------------------
// Styles
// ---------------------------------------------------------------------------

/// What an attribute at the beginning of a style leaves of it.
pub enum StyleStep {
    /// The style is this attribute.
    Whole,
    /// The style goes on after the attribute.
    Next(Seq<char>),
    /// The style does not begin with the attribute.
    Absent,
}

pub open spec fn attribute_step(style: Seq<char>, attribute: Seq<char>) -> StyleStep {
    if style == attribute {
        StyleStep::Whole
    } else if begins(style, attribute) && is_whitespace(style[attribute.len() as int]) {
        StyleStep::Next(trimmed_start(after(style, attribute.len() as int + 1)))
    } else {
        StyleStep::Absent
    }
}

/// The step of the first of the attributes that the style begins with.
pub open spec fn style_step(style: Seq<char>) -> StyleStep {
    match attribute_step(style, "bold"@) {
        StyleStep::Absent => match attribute_step(style, "dim"@) {
            StyleStep::Absent => match attribute_step(style, "italic"@) {
                StyleStep::Absent => attribute_step(style, "underline"@),
                step => step,
            },
            step => step,
        },
        step => step,
    }
}

/// The colour that stands behind the attributes of a style; `None` where the
/// style ends with an attribute.
pub open spec fn style_color(style: Seq<char>) -> Option<Seq<char>>
    decreases style.len(),
{
    match style_step(style) {
        StyleStep::Whole => None,
        StyleStep::Next(next) => if next.len() < style.len() {
            style_color(next)
        } else {
            None
        },
        StyleStep::Absent => Some(style),
    }
}

/// The words of a text: what stands between white space.
pub open spec fn words_of(s: Seq<char>) -> Seq<Seq<char>>
    decreases s.len(),
{
    if s.len() == 0 {
        Seq::empty()
    } else {
        let less = s.drop_last();
        let p = words_of(less);
        if is_whitespace(s.last()) {
            p
        } else if less.len() == 0 || is_whitespace(less.last()) {
            p.push(seq![s.last()])
        } else {
            p.drop_last().push(p.last().push(s.last()))
        }
    }
}

/// What stands in the brackets of an OKLCH colour.
pub open spec fn oklch_payload(color: Seq<char>) -> Option<Seq<char>> {
    match without_prefix(color, "oklch("@) {
        Some(rest) => without_suffix(rest, seq![')']),
        None => None,
    }
}

/// The numbers of a style, as they are written.
pub open spec fn style_numbers(style: Seq<char>) -> Seq<Seq<char>> {
    if trimmed(style) == "none"@ {
        Seq::empty()
    } else {
        match style_color(trimmed(style)) {
            None => Seq::empty(),
            Some(color) => match oklch_payload(color) {
                Some(payload) => words_of(payload),
                None => Seq::empty(),
            },
        }
    }
}

/// Whether the bits of a binary32 number are those of a finite one.
pub open spec fn is_finite(bits: u32) -> bool {
    bits % 0x8000_0000 < 0x7F80_0000
}

/// Whether a finite binary32 number is less than zero.
pub open spec fn is_negative(bits: u32) -> bool {
    bits > 0x8000_0000
}

/// Whether a finite binary32 number is at least zero and at most one.
pub open spec fn is_unit(bits: u32) -> bool {
    bits <= 0x3F80_0000 || bits == 0x8000_0000
}

/// The reading of the number `i`; a missing one is no number.
pub open spec fn reading_at(readings: Seq<Option<u32>>, i: int) -> Option<u32> {
    if 0 <= i < readings.len() {
        readings[i]
    } else {
        None
    }
}

/// Why the numbers of an OKLCH colour are refused. The readings are the bits of
/// the binary32 numbers that are nearest to the words; a word that is no number
/// has none.
pub open spec fn oklch_failure(count: nat, readings: Seq<Option<u32>>) -> Option<Seq<char>> {
    if exists|i: int| 0 <= i < count && #[trigger] reading_at(readings, i) is None {
        Some("OKLCH values must be numbers"@)
    } else if count != 3 || exists|i: int|
        0 <= i < count && !is_finite((#[trigger] reading_at(readings, i))->Some_0) {
        Some("OKLCH requires three finite values"@)
    } else if !is_unit(reading_at(readings, 0)->Some_0) || is_negative(
        reading_at(readings, 1)->Some_0,
    ) {
        Some("OKLCH lightness must be 0..1 and chroma non-negative"@)
    } else {
        None
    }
}

/// Why a colour is refused.
pub open spec fn color_failure(color: Seq<char>, readings: Seq<Option<u32>>) -> Option<Seq<char>> {
    if begins(color, seq!['#']) {
        let hex = after(color, 1);
        if hex.len() == 6 && all_chars(hex, |c: char| is_hex(c)) {
            None
        } else {
            Some("expected #RRGGBB"@)
        }
    } else {
        match oklch_payload(color) {
            None => Some("expected none, style attributes, #RRGGBB, or oklch(L C H)"@),
            Some(payload) => oklch_failure(words_of(payload).len(), readings),
        }
    }
}

/// Why a style is refused: it is `none`, or attributes, or a colour behind any
/// number of attributes.
pub open spec fn style_failure(style: Seq<char>, readings: Seq<Option<u32>>) -> Option<Seq<char>> {
    if trimmed(style) == "none"@ {
        None
    } else {
        match style_color(trimmed(style)) {
            None => None,
            Some(color) => color_failure(color, readings),
        }
    }
}

/// The first of the first `n` styles that is refused, and why.
pub open spec fn styles_failure(
    fields: Seq<(Seq<char>, Seq<char>)>,
    readings: Seq<Seq<Option<u32>>>,
    n: int,
) -> Option<Seq<char>>
    decreases n,
{
    if n <= 0 {
        None
    } else {
        match styles_failure(fields, readings, n - 1) {
            Some(error) => Some(error),
            None => match style_failure(fields[n - 1].1, readings_at(readings, n - 1)) {
                Some(error) => Some(
                    "presentation.colors."@ + fields[n - 1].0 + ": "@ + error,
                ),
                None => None,
            },
        }
    }
}

/// The readings of the numbers of the style `i`; a missing row is empty.
pub open spec fn readings_at(readings: Seq<Seq<Option<u32>>>, i: int) -> Seq<Option<u32>> {
    if 0 <= i < readings.len() {
        readings[i]
    } else {
        Seq::empty()
    }
}

/// What an attribute leaves of a style, as a value.
enum Step {
    Whole,
    Next(String),
    Absent,
}

spec fn step_abs(step: Step) -> StyleStep {
    match step {
        Step::Whole => StyleStep::Whole,
        Step::Next(next) => StyleStep::Next(next@),
        Step::Absent => StyleStep::Absent,
    }
}

fn take_attribute(style: &str, attribute: &str) -> (r: Step)
    ensures
        step_abs(r) == attribute_step(style@, attribute@),
{
    if same_text(style, attribute) {
        return Step::Whole;
    }
    let chars: Vec<char> = chars_of(style);
    let length: usize = chars_of(attribute).len();
    if starts_with(style, attribute) {
        assert(style@.len() > attribute@.len()) by {
            if style@.len() == attribute@.len() {
                assert(style@.subrange(0, attribute@.len() as int) =~= style@);
            }
        }
        if whitespace(chars[length]) {
            let size: usize = chars.len();
            let rest: String = text_of(&chars, length + 1, size);
            return Step::Next(trim_start(rest.as_str()));
        }
    }
    Step::Absent
}

fn take_any_attribute(style: &str) -> (r: Step)
    ensures
        step_abs(r) == style_step(style@),
{
    match take_attribute(style, "bold") {
        Step::Absent => match take_attribute(style, "dim") {
            Step::Absent => match take_attribute(style, "italic") {
                Step::Absent => take_attribute(style, "underline"),
                step => step,
            },
            step => step,
        },
        step => step,
    }
}

proof fn lemma_step_shortens(style: Seq<char>)
    ensures
        style_step(style) matches StyleStep::Next(next) ==> next.len() < style.len(),
{
    reveal_strlit("bold");
    reveal_strlit("dim");
    reveal_strlit("italic");
    reveal_strlit("underline");
    lemma_attribute_shortens(style, "bold"@);
    lemma_attribute_shortens(style, "dim"@);
    lemma_attribute_shortens(style, "italic"@);
    lemma_attribute_shortens(style, "underline"@);
}

proof fn lemma_attribute_shortens(style: Seq<char>, attribute: Seq<char>)
    requires
        attribute.len() > 0,
    ensures
        attribute_step(style, attribute) matches StyleStep::Next(next) ==> next.len()
            < style.len(),
{
    if attribute_step(style, attribute) is Next {
        if style.len() == attribute.len() {
            assert(style.subrange(0, attribute.len() as int) =~= style);
        }
        trimmed_start_facts(after(style, attribute.len() as int + 1));
    }
}

/// The colour behind the attributes of a style.
fn color_of(style: &str) -> (r: Option<String>)
    ensures
        r.abs() == style_color(style@),
{
    let mut rest: String = style.to_owned();
    loop
        invariant
            style_color(style@) == style_color(rest@),
        decreases rest@.len(),
    {
        proof {
            lemma_step_shortens(rest@);
        }
        match take_any_attribute(rest.as_str()) {
            Step::Whole => {
                return None;
            },
            Step::Next(next) => {
                rest = next;
            },
            Step::Absent => {
                return Some(rest);
            },
        }
    }
}

/// The words of a text.
fn words(text: &str) -> (r: Vec<String>)
    ensures
        r.abs() == words_of(text@),
{
    let chars: Vec<char> = chars_of(text);
    let mut out: Vec<String> = Vec::new();
    let mut word: String = String::new();
    let mut i: usize = 0;
    assert(chars@.take(0) =~= Seq::<char>::empty());
    assert(contents(out@) =~= Seq::<Seq<char>>::empty());
    while i < chars.len()
        invariant
            i <= chars@.len(),
            chars@ == text@,
            words_of(chars@.take(i as int)) == if word@.len() == 0 {
                contents(out@)
            } else {
                contents(out@).push(word@)
            },
            word@.len() == 0 <==> (i == 0 || is_whitespace(chars@[i - 1])),
        decreases chars@.len() - i,
    {
        let ghost less = chars@.take(i as int);
        let ghost before = contents(out@);
        assert(chars@.take(i + 1).drop_last() =~= less);
        assert(chars@.take(i + 1).last() == chars@[i as int]);
        if i > 0 {
            assert(less.last() == chars@[i - 1]);
        }
        if whitespace(chars[i]) {
            if !word.as_str().is_empty() {
                out.push(word);
                word = String::new();
                assert(contents(out@) =~= words_of(less));
            }
        } else {
            let ghost old_word = word@;
            word.push(chars[i]);
            proof {
                if old_word.len() == 0 {
                    assert(word@ =~= seq![chars@[i as int]]);
                } else {
                    assert(words_of(less).drop_last() =~= before);
                }
            }
        }
        i += 1;
    }
    assert(chars@.take(i as int) =~= chars@);
    if !word.as_str().is_empty() {
        let ghost before = contents(out@);
        out.push(word);
        assert(contents(out@) =~= before.push(word@));
    }
    out
}

fn oklch_words(color: &str) -> (r: Option<Vec<String>>)
    ensures
        match r {
            Some(list) => oklch_payload(color@) is Some && contents(list@) == words_of(
                oklch_payload(color@)->Some_0,
            ),
            None => oklch_payload(color@) is None,
        },
{
    proof {
        reveal_strlit(")");
        assert(")"@ =~= seq![')']);
    }
    match strip_prefix(color, "oklch(") {
        Some(rest) => match strip_suffix(rest.as_str(), ")") {
            Some(payload) => Some(words(payload.as_str())),
            None => None,
        },
        None => None,
    }
}

/// The numbers of a style, as they are written.
fn numbers_of(style: &str) -> (r: Vec<String>)
    ensures
        contents(r@) == style_numbers(style@),
{
    let value: String = trim(style);
    let none: Vec<String> = Vec::new();
    assert(contents(none@) =~= Seq::<Seq<char>>::empty());
    if same_text(value.as_str(), "none") {
        return none;
    }
    match color_of(value.as_str()) {
        None => none,
        Some(color) => match oklch_words(color.as_str()) {
            Some(list) => list,
            None => none,
        },
    }
}

fn finite(bits: u32) -> (b: bool)
    ensures
        b == is_finite(bits),
{
    bits % 0x8000_0000 < 0x7F80_0000
}

fn validate_numbers(count: usize, readings: &Vec<Option<u32>>) -> (r: Result<(), String>)
    ensures
        match oklch_failure(count as nat, readings@) {
            Some(error) => r is Err && r->Err_0@ == error,
            None => r is Ok,
        },
{
    let mut i: usize = 0;
    while i < count
        invariant
            i <= count,
            forall|k: int| 0 <= k < i ==> #[trigger] reading_at(readings@, k) is Some,
        decreases count - i,
    {
        if i >= readings.len() || readings[i].is_none() {
            assert(reading_at(readings@, i as int) is None);
            return Err("OKLCH values must be numbers".to_owned());
        }
        i += 1;
    }
    if count != 3 {
        return Err("OKLCH requires three finite values".to_owned());
    }
    assert(reading_at(readings@, 0) is Some && reading_at(readings@, 1) is Some && reading_at(
        readings@,
        2,
    ) is Some);
    match (readings[0], readings[1], readings[2]) {
        (Some(lightness), Some(chroma), Some(hue)) => {
            if !finite(lightness) || !finite(chroma) || !finite(hue) {
                assert(!is_finite(reading_at(readings@, 0)->Some_0) || !is_finite(
                    reading_at(readings@, 1)->Some_0,
                ) || !is_finite(reading_at(readings@, 2)->Some_0));
                return Err("OKLCH requires three finite values".to_owned());
            }
            if !(lightness <= 0x3F80_0000 || lightness == 0x8000_0000) || chroma > 0x8000_0000 {
                return Err("OKLCH lightness must be 0..1 and chroma non-negative".to_owned());
            }
            Ok(())
        },
        _ => Ok(()),
    }
}

fn validate_color(color: &str, readings: &Vec<Option<u32>>) -> (r: Result<(), String>)
    ensures
        match color_failure(color@, readings@) {
            Some(error) => r is Err && r->Err_0@ == error,
            None => r is Ok,
        },
{
    proof {
        reveal_strlit("#");
        assert("#"@ =~= seq!['#']);
    }
    if starts_with(color, "#") {
        let chars: Vec<char> = chars_of(color);
        let ghost hex = after(color@, 1);
        if chars.len() != 7 {
            return Err("expected #RRGGBB".to_owned());
        }
        let mut i: usize = 1;
        while i < chars.len()
            invariant
                1 <= i <= chars@.len(),
                chars@.len() == 7,
                hex == after(color@, 1),
                chars@ == color@,
                begins(color@, seq!['#']),
                forall|k: int| 0 <= k < i - 1 ==> is_hex(#[trigger] hex[k]),
            decreases chars@.len() - i,
        {
            assert(hex[i - 1] == chars@[i as int]);
            if !hex_digit(chars[i]) {
                return Err("expected #RRGGBB".to_owned());
            }
            i += 1;
        }
        return Ok(());
    }
    match oklch_words(color) {
        Some(list) => validate_numbers(list.len(), readings),
        None => Err("expected none, style attributes, #RRGGBB, or oklch(L C H)".to_owned()),
    }
}

/// Whether a style is `none`, or attributes, or a colour behind attributes.
fn validate_presentation_style(style: &str, readings: &Vec<Option<u32>>) -> (r: Result<(), String>)
    ensures
        match style_failure(style@, readings@) {
            Some(error) => r is Err && r->Err_0@ == error,
            None => r is Ok,
        },
{
    let value: String = trim(style);
    if same_text(value.as_str(), "none") {
        return Ok(());
    }
    match color_of(value.as_str()) {
        None => Ok(()),
        Some(color) => validate_color(color.as_str(), readings),
    }
}

spec fn rows(readings: Seq<Vec<Option<u32>>>) -> Seq<Seq<Option<u32>>> {
    Seq::new(readings.len(), |i: int| readings[i]@)
}

proof fn lemma_styles_fail(
    fields: Seq<(Seq<char>, Seq<char>)>,
    readings: Seq<Seq<Option<u32>>>,
    n: int,
    m: int,
)
    requires
        0 <= n <= m,
        styles_failure(fields, readings, n) is Some,
    ensures
        styles_failure(fields, readings, m) == styles_failure(fields, readings, n),
    decreases m,
{
    if n < m {
        lemma_styles_fail(fields, readings, n, m - 1);
    }
}

impl PresentationColors {
    /// The name and the style of each part.
    pub open spec fn fields(&self) -> Seq<(Seq<char>, Seq<char>)> {
        seq![
                ("rule"@, self.rule@),
                ("run"@, self.run@),
                ("run_id"@, self.run_id@),
                ("status_success"@, self.status_success@),
                ("status_failure"@, self.status_failure@),
                ("status_pending"@, self.status_pending@),
                ("operation"@, self.operation@),
                ("tool"@, self.tool@),
                ("ordinal"@, self.ordinal@),
                ("field"@, self.field@),
                ("muted"@, self.muted@),
                ("json_key"@, self.json_key@),
                ("json_string"@, self.json_string@),
                ("json_number"@, self.json_number@),
                ("json_boolean"@, self.json_boolean@),
                ("json_null"@, self.json_null@),
                ("markdown_heading"@, self.markdown_heading@),
                ("markdown_code"@, self.markdown_code@),
                ("markdown_inline_code"@, self.markdown_inline_code@),
                ("markdown_strong"@, self.markdown_strong@),
                ("markdown_emphasis"@, self.markdown_emphasis@),
                ("markdown_link"@, self.markdown_link@),
                ("markdown_quote"@, self.markdown_quote@),
                ("markdown_bullet"@, self.markdown_bullet@),
                ("markdown_rule"@, self.markdown_rule@),
                ("input_rule"@, self.input_rule@),
                ("input_background"@, self.input_background@),
                ("input_prompt"@, self.input_prompt@),
                ("input_hint"@, self.input_hint@),
                ("input_text"@, self.input_text@),
                ("input_activity"@, self.input_activity@),
                ("input_selected"@, self.input_selected@),
        ]
    }

    fn parts(&self) -> (r: Vec<(&'static str, &str)>)
        ensures
            r@.len() == self.fields().len(),
            forall|i: int|
                0 <= i < r@.len() ==> ((#[trigger] r@[i]).0@, r@[i].1@) == self.fields()[i],
    {
        vec![
            ("rule", self.rule.as_str()),
            ("run", self.run.as_str()),
            ("run_id", self.run_id.as_str()),
            ("status_success", self.status_success.as_str()),
            ("status_failure", self.status_failure.as_str()),
            ("status_pending", self.status_pending.as_str()),
            ("operation", self.operation.as_str()),
            ("tool", self.tool.as_str()),
            ("ordinal", self.ordinal.as_str()),
            ("field", self.field.as_str()),
            ("muted", self.muted.as_str()),
            ("json_key", self.json_key.as_str()),
            ("json_string", self.json_string.as_str()),
            ("json_number", self.json_number.as_str()),
            ("json_boolean", self.json_boolean.as_str()),
            ("json_null", self.json_null.as_str()),
            ("markdown_heading", self.markdown_heading.as_str()),
            ("markdown_code", self.markdown_code.as_str()),
            ("markdown_inline_code", self.markdown_inline_code.as_str()),
            ("markdown_strong", self.markdown_strong.as_str()),
            ("markdown_emphasis", self.markdown_emphasis.as_str()),
            ("markdown_link", self.markdown_link.as_str()),
            ("markdown_quote", self.markdown_quote.as_str()),
            ("markdown_bullet", self.markdown_bullet.as_str()),
            ("markdown_rule", self.markdown_rule.as_str()),
            ("input_rule", self.input_rule.as_str()),
            ("input_background", self.input_background.as_str()),
            ("input_prompt", self.input_prompt.as_str()),
            ("input_hint", self.input_hint.as_str()),
            ("input_text", self.input_text.as_str()),
            ("input_activity", self.input_activity.as_str()),
            ("input_selected", self.input_selected.as_str()),
        ]
    }

    /// The numbers of each style, as they are written.
    pub fn numbers(&self) -> (r: Vec<Vec<String>>)
        ensures
            r@.len() == self.fields().len(),
            forall|i: int|
                0 <= i < r@.len() ==> contents((#[trigger] r@[i])@) == style_numbers(
                    self.fields()[i].1,
                ),
    {
        let parts: Vec<(&'static str, &str)> = self.parts();
        let mut out: Vec<Vec<String>> = Vec::new();
        let mut i: usize = 0;
        while i < parts.len()
            invariant
                i <= parts@.len(),
                parts@.len() == self.fields().len(),
                forall|k: int|
                    0 <= k < parts@.len() ==> ((#[trigger] parts@[k]).0@, parts@[k].1@)
                        == self.fields()[k],
                out@.len() == i,
                forall|k: int|
                    0 <= k < i ==> contents((#[trigger] out@[k])@) == style_numbers(
                        self.fields()[k].1,
                    ),
            decreases parts@.len() - i,
        {
            assert((parts@[i as int].0@, parts@[i as int].1@) == self.fields()[i as int]);
            out.push(numbers_of(parts[i].1));
            i += 1;
        }
        out
    }

    /// Whether every style can be shown. `readings` holds, for each of the
    /// `numbers`, the bits of the binary32 number that is nearest to it, and
    /// nothing where it is no number.
    pub fn validate(&self, readings: &Vec<Vec<Option<u32>>>) -> (r: Result<(), String>)
        ensures
            match styles_failure(
                self.fields(),
                Seq::new(readings@.len(), |i: int| readings@[i]@),
                self.fields().len() as int,
            ) {
                Some(error) => r is Err && r->Err_0@ == error,
                None => r is Ok,
            },
    {
        let parts: Vec<(&'static str, &str)> = self.parts();
        let ghost all = self.fields();
        let ghost given = rows(readings@);
        assert(given =~= Seq::new(readings@.len(), |i: int| readings@[i]@));
        let empty: Vec<Option<u32>> = Vec::new();
        let mut i: usize = 0;
        while i < parts.len()
            invariant
                i <= parts@.len(),
                all == self.fields(),
                parts@.len() == all.len(),
                given == rows(readings@),
                given == Seq::new(readings@.len(), |i: int| readings@[i]@),
                empty@ == Seq::<Option<u32>>::empty(),
                forall|k: int|
                    0 <= k < parts@.len() ==> ((#[trigger] parts@[k]).0@, parts@[k].1@) == all[k],
                styles_failure(all, given, i as int) is None,
            decreases parts@.len() - i,
        {
            let row: &Vec<Option<u32>> = if i < readings.len() {
                &readings[i]
            } else {
                &empty
            };
            assert(row@ == readings_at(given, i as int));
            assert((parts@[i as int].0@, parts@[i as int].1@) == all[i as int]);
            match validate_presentation_style(parts[i].1, row) {
                Ok(()) => {},
                Err(error) => {
                    proof {
                        lemma_styles_fail(all, given, i + 1, all.len() as int);
                    }
                    return Err(
                        "presentation.colors.".to_owned().concat(parts[i].0).concat(": ").concat(
                            error.as_str(),
                        ),
                    );
                },
            }
            i += 1;
        }
        Ok(())
    }
}

} // verus!
