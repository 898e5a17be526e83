//! Screen monitoring: what a screenshot looks like, judged from a grid of
//! sampled pixels (a code editor, a terminal, a browser), and the records
//! of screen changes.
//!
//! Shares of the samples (more than half, a fifth, seven tenths, three
//! fifths) are compared exactly, in integers.
use vstd::prelude::*;
use crate::text::{join2, join3, join_strings, spec_join, spec_strings};

verus! {

/// A sampled pixel.
#[derive(Debug, Clone, Copy, PartialEq, Eq)]
pub struct Pixel {
    pub r: u8,
    pub g: u8,
    pub b: u8,
    pub a: u8,
}

/// A pixel sampled at a position.
#[derive(Debug, Clone, Copy, PartialEq, Eq)]
pub struct Sample {
    pub x: u32,
    pub y: u32,
    pub pixel: Pixel,
}

/// What a screenshot shows.
#[derive(Debug, Clone)]
pub enum DetectedPattern {
    CodeEditor { language: Option<String>, has_errors: bool },
    Terminal { has_errors: bool, error_type: Option<String> },
    Browser { has_stack_trace: bool },
    IDE { name: String },
}

/// A change of the screen that was captured.
#[derive(Debug, Clone)]
pub struct ScreenChange {
    pub timestamp: u64,
    pub image_path: String,
    pub image_base64: String,
    pub analysis: Option<String>,
}

/// Side of the sampling grid.
pub const GRID: u32 = 10;

/// Position sampled in column (or row) `i` of the grid across `size` pixels.
pub open spec fn spec_grid_pos(i: u32, size: u32) -> u32 {
    let p = (i * size / 10) as u32;
    if p < size - 1 { p } else { (size - 1) as u32 }
}

/// The sampled positions, row by row: 10 rows of 10.
pub open spec fn spec_sample_positions(width: u32, height: u32) -> Seq<(u32, u32)> {
    Seq::new(100, |k: int| (spec_grid_pos((k % 10) as u32, width), spec_grid_pos((k / 10) as u32, height)))
}

fn grid_pos(i: u32, size: u32) -> (p: u32)
    requires
        i < 10,
        0 < size <= u32::MAX / 9,
    ensures
        p == spec_grid_pos(i, size),
{
    assert(i * size <= 9 * u32::MAX / 9) by (nonlinear_arith)
        requires
            i < 10,
            size <= u32::MAX / 9,
    ;
    let q = i * size / 10;
    if q < size - 1 { q } else { size - 1 }
}

/// The positions to sample in an image of the given size: a 10 by 10 grid,
/// row by row.
pub fn sample_positions(width: u32, height: u32) -> (v: Vec<(u32, u32)>)
    requires
        0 < width <= u32::MAX / 9,
        0 < height <= u32::MAX / 9,
    ensures
        v@ == spec_sample_positions(width, height),
{
    let mut v: Vec<(u32, u32)> = Vec::new();
    let mut y: u32 = 0;
    while y < GRID
        invariant
            y <= 10,
            0 < width <= u32::MAX / 9,
            0 < height <= u32::MAX / 9,
            v@.len() == y * 10,
            forall|k: int| 0 <= k < v@.len() ==> #[trigger] v@[k] == spec_sample_positions(width, height)[k],
        decreases 10 - y,
    {
        let mut x: u32 = 0;
        while x < GRID
            invariant
                x <= 10,
                y < 10,
                0 < width <= u32::MAX / 9,
                0 < height <= u32::MAX / 9,
                v@.len() == y * 10 + x,
                forall|k: int| 0 <= k < v@.len() ==> #[trigger] v@[k] == spec_sample_positions(width, height)[k],
            decreases 10 - x,
        {
            let px = grid_pos(x, width);
            let py = grid_pos(y, height);
            proof {
                let k = (y * 10 + x) as int;
                assert(k % 10 == x && k / 10 == y) by (nonlinear_arith)
                    requires k == y * 10 + x, x < 10;
            }
            v.push((px, py));
            x = x + 1;
        }
        y = y + 1;
    }
    assert(v@ =~= spec_sample_positions(width, height));
    v
}

/// Mean of the colour channels.
pub open spec fn spec_brightness(p: Pixel) -> int {
    (p.r + p.g + p.b) / 3
}

pub open spec fn spec_abs(x: int) -> int {
    if x < 0 { -x } else { x }
}

/// Mean difference between the colour channels.
pub open spec fn spec_color_variance(p: Pixel) -> int {
    (spec_abs(p.r - p.g) + spec_abs(p.g - p.b) + spec_abs(p.r - p.b)) / 3
}

pub open spec fn spec_is_dark(p: Pixel) -> bool { spec_brightness(p) < 80 }
pub open spec fn spec_is_light(p: Pixel) -> bool { spec_brightness(p) > 200 }
pub open spec fn spec_is_colorful(p: Pixel) -> bool { spec_color_variance(p) > 30 }
pub open spec fn spec_is_monochrome(p: Pixel) -> bool { spec_color_variance(p) < 20 }
pub open spec fn spec_is_red(p: Pixel) -> bool { p.r > 200 && p.g < 100 && p.b < 100 }
pub open spec fn spec_is_blue(p: Pixel) -> bool { p.b > 150 && p.r < 100 && p.g < 100 }
pub open spec fn spec_is_green(p: Pixel) -> bool { p.g > 150 && p.r < 100 && p.b < 100 }
pub open spec fn spec_is_yellow(p: Pixel) -> bool { p.r > 200 && p.g > 200 && p.b < 100 }

/// Number of samples whose pixel has a property.
pub open spec fn spec_count(s: Seq<Sample>, f: spec_fn(Pixel) -> bool) -> nat
    decreases s.len(),
{
    if s.len() == 0 { 0 } else { spec_count(s.drop_last(), f) + if f(s.last().pixel) { 1nat } else { 0nat } }
}

/// More than half the samples are dark and more than a fifth colourful.
pub open spec fn spec_is_code_editor(s: Seq<Sample>) -> bool {
    2 * spec_count(s, |p: Pixel| spec_is_dark(p)) > s.len() && 5 * spec_count(s, |p: Pixel| spec_is_colorful(p)) > s.len()
}

/// More than seven tenths of the samples are monochrome.
pub open spec fn spec_is_terminal(s: Seq<Sample>) -> bool {
    10 * spec_count(s, |p: Pixel| spec_is_monochrome(p)) > 7 * s.len()
}

/// More than three fifths of the samples are light.
pub open spec fn spec_is_browser(s: Seq<Sample>) -> bool {
    5 * spec_count(s, |p: Pixel| spec_is_light(p)) > 3 * s.len()
}

/// More than five samples are bright red.
pub open spec fn spec_has_red_marks(s: Seq<Sample>) -> bool {
    spec_count(s, |p: Pixel| spec_is_red(p)) > 5
}

/// The language guessed from the colours: blue, green and yellow is
/// JavaScript, blue and green Python, yellow Rust.
pub open spec fn spec_guess_language(s: Seq<Sample>) -> Option<Seq<char>> {
    let blue = spec_count(s, |p: Pixel| spec_is_blue(p)) > 0;
    let green = spec_count(s, |p: Pixel| spec_is_green(p)) > 0;
    let yellow = spec_count(s, |p: Pixel| spec_is_yellow(p)) > 0;
    if blue && green && yellow {
        Some("JavaScript"@)
    } else if blue && green {
        Some("Python"@)
    } else if yellow {
        Some("Rust"@)
    } else {
        None
    }
}

fn brightness(p: Pixel) -> (v: u32)
    ensures
        v == spec_brightness(p),
{
    (p.r as u32 + p.g as u32 + p.b as u32) / 3
}

fn abs_diff(a: u8, b: u8) -> (d: u32)
    ensures
        d == spec_abs(a - b),
{
    if a >= b { (a - b) as u32 } else { (b - a) as u32 }
}

fn color_variance(p: Pixel) -> (v: u32)
    ensures
        v == spec_color_variance(p),
{
    (abs_diff(p.r, p.g) + abs_diff(p.g, p.b) + abs_diff(p.r, p.b)) / 3
}

/// Counts of the pixel classes of the samples.
#[derive(Debug, Clone, Copy)]
pub struct SampleCounts {
    pub dark: usize,
    pub light: usize,
    pub colorful: usize,
    pub monochrome: usize,
    pub red: usize,
    pub blue: usize,
    pub green: usize,
    pub yellow: usize,
}

/// Counts the samples of each pixel class.
pub fn count_samples(samples: &[Sample]) -> (c: SampleCounts)
    ensures
        c.dark == spec_count(samples@, |p: Pixel| spec_is_dark(p)),
        c.light == spec_count(samples@, |p: Pixel| spec_is_light(p)),
        c.colorful == spec_count(samples@, |p: Pixel| spec_is_colorful(p)),
        c.monochrome == spec_count(samples@, |p: Pixel| spec_is_monochrome(p)),
        c.red == spec_count(samples@, |p: Pixel| spec_is_red(p)),
        c.blue == spec_count(samples@, |p: Pixel| spec_is_blue(p)),
        c.green == spec_count(samples@, |p: Pixel| spec_is_green(p)),
        c.yellow == spec_count(samples@, |p: Pixel| spec_is_yellow(p)),
        c.dark <= samples@.len(),
        c.light <= samples@.len(),
        c.colorful <= samples@.len(),
        c.monochrome <= samples@.len(),
{
    let mut c = SampleCounts { dark: 0, light: 0, colorful: 0, monochrome: 0, red: 0, blue: 0, green: 0, yellow: 0 };
    let mut i: usize = 0;
    while i < samples.len()
        invariant
            i <= samples@.len(),
            c.dark == spec_count(samples@.take(i as int), |p: Pixel| spec_is_dark(p)),
            c.light == spec_count(samples@.take(i as int), |p: Pixel| spec_is_light(p)),
            c.colorful == spec_count(samples@.take(i as int), |p: Pixel| spec_is_colorful(p)),
            c.monochrome == spec_count(samples@.take(i as int), |p: Pixel| spec_is_monochrome(p)),
            c.red == spec_count(samples@.take(i as int), |p: Pixel| spec_is_red(p)),
            c.blue == spec_count(samples@.take(i as int), |p: Pixel| spec_is_blue(p)),
            c.green == spec_count(samples@.take(i as int), |p: Pixel| spec_is_green(p)),
            c.yellow == spec_count(samples@.take(i as int), |p: Pixel| spec_is_yellow(p)),
            c.dark <= i && c.light <= i && c.colorful <= i && c.monochrome <= i,
            c.red <= i && c.blue <= i && c.green <= i && c.yellow <= i,
        decreases samples@.len() - i,
    {
        let p = samples[i].pixel;
        proof {
            assert(samples@.take(i + 1).drop_last() =~= samples@.take(i as int));
            assert(samples@.take(i + 1).last() == samples@[i as int]);
        }
        let br = brightness(p);
        let va = color_variance(p);
        if br < 80 { c.dark = c.dark + 1; }
        if br > 200 { c.light = c.light + 1; }
        if va > 30 { c.colorful = c.colorful + 1; }
        if va < 20 { c.monochrome = c.monochrome + 1; }
        if p.r > 200 && p.g < 100 && p.b < 100 { c.red = c.red + 1; }
        if p.b > 150 && p.r < 100 && p.g < 100 { c.blue = c.blue + 1; }
        if p.g > 150 && p.r < 100 && p.b < 100 { c.green = c.green + 1; }
        if p.r > 200 && p.g > 200 && p.b < 100 { c.yellow = c.yellow + 1; }
        i = i + 1;
    }
    assert(samples@.take(samples@.len() as int) =~= samples@);
    c
}

/// Whether the samples look like a code editor.
pub fn is_code_editor(samples: &[Sample]) -> (b: bool)
    ensures
        b == spec_is_code_editor(samples@),
{
    let c = count_samples(samples);
    let n = samples.len() as u128;
    2 * (c.dark as u128) > n && 5 * (c.colorful as u128) > n
}

/// Whether the samples look like a terminal.
pub fn is_terminal(samples: &[Sample]) -> (b: bool)
    ensures
        b == spec_is_terminal(samples@),
{
    let c = count_samples(samples);
    let n = samples.len() as u128;
    10 * (c.monochrome as u128) > 7 * n
}

/// Whether the samples look like a browser.
pub fn is_browser(samples: &[Sample]) -> (b: bool)
    ensures
        b == spec_is_browser(samples@),
{
    let c = count_samples(samples);
    let n = samples.len() as u128;
    5 * (c.light as u128) > 3 * n
}

/// Whether red error marks show.
pub fn detect_red_squiggles(samples: &[Sample]) -> (b: bool)
    ensures
        b == spec_has_red_marks(samples@),
{
    count_samples(samples).red > 5
}

/// The programming language guessed from the colours.
pub fn guess_language(samples: &[Sample]) -> (l: Option<String>)
    ensures
        match l {
            Some(s) => spec_guess_language(samples@) == Some(s@),
            None => spec_guess_language(samples@) is None,
        },
{
    let c = count_samples(samples);
    let blue = c.blue > 0;
    let green = c.green > 0;
    let yellow = c.yellow > 0;
    if blue && green && yellow {
        Some(String::from_str("JavaScript"))
    } else if blue && green {
        Some(String::from_str("Python"))
    } else if yellow {
        Some(String::from_str("Rust"))
    } else {
        None
    }
}

/// A spec-level view of a detected pattern.
pub enum PatternView {
    CodeEditor { language: Option<Seq<char>>, has_errors: bool },
    Terminal { has_errors: bool, error_type: Option<Seq<char>> },
    Browser { has_stack_trace: bool },
    IDE { name: Seq<char> },
}

pub open spec fn spec_opt(o: Option<String>) -> Option<Seq<char>> {
    match o {
        Some(s) => Some(s@),
        None => None,
    }
}

impl View for DetectedPattern {
    type V = PatternView;

    open spec fn view(&self) -> PatternView {
        match self {
            DetectedPattern::CodeEditor { language, has_errors } => PatternView::CodeEditor { language: spec_opt(*language), has_errors: *has_errors },
            DetectedPattern::Terminal { has_errors, error_type } => PatternView::Terminal { has_errors: *has_errors, error_type: spec_opt(*error_type) },
            DetectedPattern::Browser { has_stack_trace } => PatternView::Browser { has_stack_trace: *has_stack_trace },
            DetectedPattern::IDE { name } => PatternView::IDE { name: name@ },
        }
    }
}

/// The patterns shown by the samples: a code editor (with the guessed
/// language, and errors when red marks show), a terminal (with errors when
/// red marks show), a browser (with a stack trace when it also looks like a
/// terminal), in this order.
pub open spec fn spec_detect_patterns(s: Seq<Sample>) -> Seq<PatternView> {
    let red = spec_has_red_marks(s);
    let editor: Seq<PatternView> = if spec_is_code_editor(s) {
        seq![PatternView::CodeEditor { language: spec_guess_language(s), has_errors: red }]
    } else {
        Seq::empty()
    };
    let terminal: Seq<PatternView> = if spec_is_terminal(s) {
        seq![PatternView::Terminal {
            has_errors: red,
            error_type: if red { Some("Command failed or stack trace detected"@) } else { None },
        }]
    } else {
        Seq::empty()
    };
    let browser: Seq<PatternView> = if spec_is_browser(s) {
        seq![PatternView::Browser { has_stack_trace: spec_is_terminal(s) }]
    } else {
        Seq::empty()
    };
    editor + terminal + browser
}

/// The patterns shown by the samples (see `spec_detect_patterns`).
pub fn detect_patterns(samples: &[Sample]) -> (v: Vec<DetectedPattern>)
    ensures
        v@.map_values(|p: DetectedPattern| p@) == spec_detect_patterns(samples@),
{
    let mut v: Vec<DetectedPattern> = Vec::new();
    let red = detect_red_squiggles(samples);
    let terminal = is_terminal(samples);
    if is_code_editor(samples) {
        v.push(DetectedPattern::CodeEditor { language: guess_language(samples), has_errors: red });
    }
    let ghost after_editor = v@;
    if terminal {
        let error_type = if red { Some(String::from_str("Command failed or stack trace detected")) } else { None };
        v.push(DetectedPattern::Terminal { has_errors: red, error_type });
    }
    let ghost after_terminal = v@;
    if is_browser(samples) {
        v.push(DetectedPattern::Browser { has_stack_trace: terminal });
    }
    proof {
        let s = samples@;
        let f = |p: DetectedPattern| p@;
        let editor: Seq<PatternView> = if spec_is_code_editor(s) {
            seq![PatternView::CodeEditor { language: spec_guess_language(s), has_errors: red }]
        } else {
            Seq::empty()
        };
        assert(after_editor.map_values(f) =~= editor);
        let terminal_part: Seq<PatternView> = if spec_is_terminal(s) {
            seq![PatternView::Terminal {
                has_errors: red,
                error_type: if red { Some("Command failed or stack trace detected"@) } else { None },
            }]
        } else {
            Seq::empty()
        };
        assert(after_terminal.map_values(f) =~= editor + terminal_part);
    }
    assert(v@.map_values(|p: DetectedPattern| p@) =~= spec_detect_patterns(samples@));
    v
}

/// The sentence describing one pattern.
pub open spec fn spec_pattern_description(p: PatternView) -> Seq<char> {
    match p {
        PatternView::CodeEditor { language, has_errors } => {
            let lang = match language { Some(l) => l, None => "unknown language"@ };
            if has_errors {
                "Code editor detected ("@ + lang + ") with potential errors highlighted"@
            } else {
                "Code editor detected ("@ + lang + ")"@
            }
        },
        PatternView::Terminal { has_errors, error_type } => {
            if has_errors {
                "Terminal with error: "@ + match error_type { Some(e) => e, None => "unknown error"@ }
            } else {
                "Terminal session active"@
            }
        },
        PatternView::Browser { has_stack_trace } => {
            if has_stack_trace { "Browser with error/stack trace visible"@ } else { "Web browser active"@ }
        },
        PatternView::IDE { name } => "IDE detected: "@ + name,
    }
}

/// The description of what the screen shows: the sentences of the patterns
/// joined with ". ", or `Generic application window` when there are none.
pub open spec fn spec_description(ps: Seq<PatternView>) -> Seq<char> {
    if ps.len() == 0 {
        "Generic application window"@
    } else {
        spec_join(ps.map_values(|p: PatternView| spec_pattern_description(p)), ". "@)
    }
}

fn pattern_description(p: &DetectedPattern) -> (s: String)
    ensures
        s@ == spec_pattern_description(p@),
{
    match p {
        DetectedPattern::CodeEditor { language, has_errors } => {
            let lang: &str = match language {
                Some(l) => l.as_str(),
                None => "unknown language",
            };
            if *has_errors {
                join3("Code editor detected (", lang, ") with potential errors highlighted")
            } else {
                join3("Code editor detected (", lang, ")")
            }
        },
        DetectedPattern::Terminal { has_errors, error_type } => {
            if *has_errors {
                let err: &str = match error_type {
                    Some(e) => e.as_str(),
                    None => "unknown error",
                };
                join2("Terminal with error: ", err)
            } else {
                String::from_str("Terminal session active")
            }
        },
        DetectedPattern::Browser { has_stack_trace } => {
            if *has_stack_trace {
                String::from_str("Browser with error/stack trace visible")
            } else {
                String::from_str("Web browser active")
            }
        },
        DetectedPattern::IDE { name } => join2("IDE detected: ", name.as_str()),
    }
}

/// Describes the detected patterns (see `spec_description`).
pub fn generate_description(patterns: &[DetectedPattern]) -> (s: String)
    ensures
        s@ == spec_description(patterns@.map_values(|p: DetectedPattern| p@)),
{
    if patterns.len() == 0 {
        return String::from_str("Generic application window");
    }
    let ghost ps = patterns@.map_values(|p: DetectedPattern| p@);
    let mut parts: Vec<String> = Vec::new();
    let mut i: usize = 0;
    while i < patterns.len()
        invariant
            i <= patterns@.len(),
            ps == patterns@.map_values(|p: DetectedPattern| p@),
            spec_strings(parts@) == ps.take(i as int).map_values(|p: PatternView| spec_pattern_description(p)),
        decreases patterns@.len() - i,
    {
        let d = pattern_description(&patterns[i]);
        let ghost before = parts@;
        parts.push(d);
        proof {
            assert(spec_strings(parts@) =~= spec_strings(before).push(d@));
            assert(ps.take(i + 1).map_values(|p: PatternView| spec_pattern_description(p))
                =~= ps.take(i as int).map_values(|p: PatternView| spec_pattern_description(p)).push(spec_pattern_description(ps[i as int])));
        }
        i = i + 1;
    }
    assert(ps.take(patterns@.len() as int) =~= ps);
    join_strings(parts.as_slice(), ". ")
}

/// The offer of help that answers one pattern read from the screen.
pub open spec fn spec_pattern_offer(p: PatternView) -> Seq<char> {
    match p {
        PatternView::CodeEditor { language, has_errors } => {
            if has_errors {
                let lang = match language { Some(l) => l, None => "code"@ };
                "Erreur détectée dans ton "@ + lang + " ! Je peux t'aider à la corriger ?"@
            } else {
                "Tu codes ? Je peux suggérer des améliorations ou générer des tests."@
            }
        },
        PatternView::Terminal { has_errors, error_type } => {
            if has_errors {
                let err = match error_type { Some(e) => e, None => "erreur"@ };
                "Commande échouée ("@ + err + ") - besoin d'aide pour débugger ?"@
            } else {
                "Terminal actif - je peux suggérer des commandes optimisées."@
            }
        },
        PatternView::Browser { has_stack_trace } => {
            if has_stack_trace {
                "Stack trace détecté ! Je peux analyser l'erreur et proposer une solution."@
            } else {
                "Navigation web - je peux résumer la page ou extraire du contenu."@
            }
        },
        PatternView::IDE { name } => "Tu utilises "@ + name + " - besoin d'aide avec ton workflow ?"@,
    }
}

/// The suggestion made from a text read on the screen and the patterns
/// found in it: the offers of the patterns joined with a space, or, when no
/// pattern was found, a general offer that quotes the text.
pub open spec fn spec_ocr_suggestion(ps: Seq<PatternView>, text: Seq<char>) -> Seq<char> {
    if ps.len() == 0 {
        "Activité détectée : "@ + text + ". Besoin d'aide ?"@
    } else {
        spec_join(ps.map_values(|p: PatternView| spec_pattern_offer(p)), " "@)
    }
}

fn pattern_offer(p: &DetectedPattern) -> (s: String)
    ensures
        s@ == spec_pattern_offer(p@),
{
    match p {
        DetectedPattern::CodeEditor { language, has_errors } => {
            if *has_errors {
                let lang: &str = match language {
                    Some(l) => l.as_str(),
                    None => "code",
                };
                join3("Erreur détectée dans ton ", lang, " ! Je peux t'aider à la corriger ?")
            } else {
                String::from_str("Tu codes ? Je peux suggérer des améliorations ou générer des tests.")
            }
        },
        DetectedPattern::Terminal { has_errors, error_type } => {
            if *has_errors {
                let err: &str = match error_type {
                    Some(e) => e.as_str(),
                    None => "erreur",
                };
                join3("Commande échouée (", err, ") - besoin d'aide pour débugger ?")
            } else {
                String::from_str("Terminal actif - je peux suggérer des commandes optimisées.")
            }
        },
        DetectedPattern::Browser { has_stack_trace } => {
            if *has_stack_trace {
                String::from_str("Stack trace détecté ! Je peux analyser l'erreur et proposer une solution.")
            } else {
                String::from_str("Navigation web - je peux résumer la page ou extraire du contenu.")
            }
        },
        DetectedPattern::IDE { name } => join3("Tu utilises ", name.as_str(), " - besoin d'aide avec ton workflow ?"),
    }
}

/// The suggestion for a text read on the screen and the patterns found in
/// it (see `spec_ocr_suggestion`).
pub fn generate_ocr_suggestion(patterns: &[DetectedPattern], text: &str) -> (s: String)
    ensures
        s@ == spec_ocr_suggestion(patterns@.map_values(|p: DetectedPattern| p@), text@),
{
    if patterns.len() == 0 {
        return join3("Activité détectée : ", text, ". Besoin d'aide ?");
    }
    let ghost ps = patterns@.map_values(|p: DetectedPattern| p@);
    let mut parts: Vec<String> = Vec::new();
    let mut i: usize = 0;
    while i < patterns.len()
        invariant
            i <= patterns@.len(),
            ps == patterns@.map_values(|p: DetectedPattern| p@),
            spec_strings(parts@) == ps.take(i as int).map_values(|p: PatternView| spec_pattern_offer(p)),
        decreases patterns@.len() - i,
    {
        let d = pattern_offer(&patterns[i]);
        let ghost before = parts@;
        parts.push(d);
        proof {
            assert(spec_strings(parts@) =~= spec_strings(before).push(d@));
            assert(ps.take(i + 1).map_values(|p: PatternView| spec_pattern_offer(p))
                =~= ps.take(i as int).map_values(|p: PatternView| spec_pattern_offer(p)).push(spec_pattern_offer(ps[i as int])));
        }
        i = i + 1;
    }
    assert(ps.take(patterns@.len() as int) =~= ps);
    join_strings(parts.as_slice(), " ")
}

/// A client of the vision service; it needs an API key.
#[derive(Debug, Clone)]
pub struct ClaudeVisionClient {
    pub api_key: String,
    pub base_url: String,
}

impl ClaudeVisionClient {
    /// A client with the key read from the environment, or the refusal when
    /// there is none.
    pub fn with_api_key(api_key: Option<String>) -> (r: Result<Self, String>)
        ensures
            api_key is None ==> (r matches Err(e) && e@ == "ANTHROPIC_API_KEY not found in environment"@),
            api_key matches Some(k) ==> (r matches Ok(c) && c.api_key@ == k@ && c.base_url@ == "https://api.anthropic.com/v1"@),
    {
        match api_key {
            None => Err(String::from_str("ANTHROPIC_API_KEY not found in environment")),
            Some(k) => Ok(ClaudeVisionClient { api_key: k, base_url: String::from_str("https://api.anthropic.com/v1") }),
        }
    }
}

} // verus!
