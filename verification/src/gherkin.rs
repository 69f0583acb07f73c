//! The Gherkin field format: features holding an optional background
//! and scenarios of steps, and the rule on the order of steps.

use vstd::prelude::*;
use crate::cursor::{cycle_wrap, wrap_index};
use crate::form::{CaretMove, FormField, erased, moved, typed};
use crate::num::{dec, fmt_u128};
use crate::utf8::byte_len;
use crate::text::{
    copy_string, pop_char, push_char, append, chars_of, concat, has_prefix, join, join_exec, lines, lines_exec, starts_with,
    strip_prefix, strip_prefix_exec, string_of, trim, trim_end, v_trim, v_trim_end, views, find,
    find_exec, slice, lemma_find_from_props, occurs_at, eq, is_ws, trim_start, lead_ws, trail_ws,
    lemma_find_no_nl, lemma_lines_append, lemma_lines_one, lemma_trimmed_ends, lemma_unpadded,
    lemma_trim_nonblank, lemma_lines_newline_end,
};
use crate::code_blocks::one_line;

verus! {

/// One scenario: a name and its steps, one per line.
#[derive(Clone, Debug, PartialEq, Eq)]
pub struct GherkinScenario {
    pub name: String,
    pub steps: String,
}

/// One feature.
#[derive(Clone, Debug, PartialEq, Eq)]
pub struct GherkinFeature {
    pub name: String,
    pub background: String,
    pub scenarios: Vec<GherkinScenario>,
}

/// The Gherkin editor.
#[derive(Clone, Debug, PartialEq, Eq)]
pub struct GherkinEditorState {
    /// Index into the form's fields of the field being edited.
    pub form_field_index: usize,
    pub features: Vec<GherkinFeature>,
    pub feature_cursor: usize,
    pub scenario_cursor: usize,
    pub mode: GherkinEditorMode,
}

/// What the Gherkin editor is doing.
#[derive(Clone, Debug, PartialEq, Eq)]
pub enum GherkinEditorMode {
    Browse,
    AddFeature { input: String },
    RenameFeature { input: String },
    EditFeature { input: String },
    RenameScenario { input: String },
    EditBackground { editor: FormField },
    EditSteps { editor: FormField },
    AddScenario { input: String },
}

pub type ScenarioV = (Seq<char>, Seq<char>);

pub type FeatureV = (Seq<char>, Seq<char>, Seq<ScenarioV>);

impl View for GherkinScenario {
    type V = ScenarioV;

    open spec fn view(&self) -> ScenarioV {
        (self.name@, self.steps@)
    }
}

pub open spec fn scenarios_view(s: Seq<GherkinScenario>) -> Seq<ScenarioV> {
    s.map_values(|x: GherkinScenario| x@)
}

impl View for GherkinFeature {
    type V = FeatureV;

    open spec fn view(&self) -> FeatureV {
        (self.name@, self.background@, scenarios_view(self.scenarios@))
    }
}

pub open spec fn features_view(s: Seq<GherkinFeature>) -> Seq<FeatureV> {
    s.map_values(|x: GherkinFeature| x@)
}

/// A line that ends the lines of a background or a scenario.
pub open spec fn is_section_head(tt: Seq<char>) -> bool {
    has_prefix(tt, "Scenario:"@) || has_prefix(tt, "Scenario Outline:"@) || has_prefix(
        tt,
        "Feature:"@,
    )
}

/// The trimmed, non-blank lines from `i` up to the next section head,
/// and where that head is; with `tags`, lines starting with `@` are
/// left out too.
pub open spec fn collect(ls: Seq<Seq<char>>, i: int, tags: bool) -> (Seq<Seq<char>>, int)
    decreases ls.len() - i,
{
    if i < 0 || i >= ls.len() {
        (Seq::empty(), i)
    } else {
        let tt = trim(ls[i]);
        if is_section_head(tt) {
            (Seq::empty(), i)
        } else {
            let rest = collect(ls, i + 1, tags);
            if (tags && has_prefix(tt, "@"@)) || tt.len() == 0 {
                rest
            } else {
                (seq![tt] + rest.0, rest.1)
            }
        }
    }
}

/// The name of a scenario head line.
pub open spec fn scenario_name(t: Seq<char>) -> Seq<char> {
    match strip_prefix(t, "Scenario:"@) {
        Some(r) => trim(r),
        None => match strip_prefix(t, "Scenario Outline:"@) {
            Some(r) => trim(r),
            None => Seq::empty(),
        },
    }
}

/// A scenario added as the `idx`-th of its feature.
pub open spec fn new_scenario(name: Seq<char>, idx: nat, steps: Seq<Seq<char>>) -> ScenarioV {
    (if name.len() == 0 {
        "Scenario "@ + dec(idx)
    } else {
        name
    }, join(steps, "\n"@))
}

pub proof fn lemma_collect(ls: Seq<Seq<char>>, i: int, tags: bool)
    requires
        0 <= i <= ls.len(),
    ensures
        i <= collect(ls, i, tags).1 <= ls.len(),
    decreases ls.len() - i,
{
    if i < ls.len() && !is_section_head(trim(ls[i])) {
        lemma_collect(ls, i + 1, tags);
    }
}

/// The scan of the feature lines from line `i` on, given the features
/// finished so far and the one being read.
pub open spec fn gherkin_scan(
    ls: Seq<Seq<char>>,
    i: int,
    done: Seq<FeatureV>,
    cur: Option<FeatureV>,
) -> (Seq<FeatureV>, Option<FeatureV>)
    decreases ls.len() - i,
{
    if i < 0 || i >= ls.len() {
        (done, cur)
    } else {
        let t = trim(trim_end(ls[i]));
        if let Some(rest) = strip_prefix(t, "Feature:"@) {
            let done2 = match cur {
                Some(f) => done.push(f),
                None => done,
            };
            gherkin_scan(ls, i + 1, done2, Some((trim(rest), Seq::empty(), Seq::empty())))
        } else if cur is None {
            gherkin_scan(ls, i + 1, done, cur)
        } else if has_prefix(t, "Background:"@) {
            proof {
                lemma_collect(ls, i + 1, false);
            }
            let c = collect(ls, i + 1, false);
            let f = cur->0;
            gherkin_scan(ls, c.1, done, Some((f.0, join(c.0, "\n"@), f.2)))
        } else if has_prefix(t, "Scenario:"@) || has_prefix(t, "Scenario Outline:"@) {
            proof {
                lemma_collect(ls, i + 1, true);
            }
            let c = collect(ls, i + 1, true);
            let f = cur->0;
            let sc = new_scenario(scenario_name(t), f.2.len() + 1, c.0);
            gherkin_scan(ls, c.1, done, Some((f.0, f.1, f.2.push(sc))))
        } else {
            gherkin_scan(ls, i + 1, done, cur)
        }
    }
}

/// The feature used when there is nothing else.
pub open spec fn default_feature() -> FeatureV {
    ("Test cases"@, Seq::empty(), seq![("Scenario 1"@, Seq::empty())])
}

/// A feature with a blank name renamed, and an empty one given a first
/// scenario.
pub open spec fn normalize_feature(f: FeatureV) -> FeatureV {
    (if trim(f.0).len() == 0 {
        "Test cases"@
    } else {
        f.0
    }, f.1, if f.2.len() == 0 {
        seq![("Scenario 1"@, Seq::empty())]
    } else {
        f.2
    })
}

/// The features the Gherkin format holds.
pub open spec fn parse_features(src: Seq<char>) -> Seq<FeatureV> {
    if trim(src).len() == 0 {
        seq![default_feature()]
    } else {
        let r = gherkin_scan(lines(src), 0, Seq::empty(), None);
        let fs = match r.1 {
            Some(f) => r.0.push(f),
            None => r.0,
        };
        if fs.len() == 0 {
            seq![default_feature()]
        } else {
            fs.map_values(|f: FeatureV| normalize_feature(f))
        }
    }
}

fn default_scenario() -> (r: GherkinScenario)
    ensures
        r@ == ("Scenario 1"@, Seq::<char>::empty()),
{
    GherkinScenario { name: "Scenario 1".to_string(), steps: String::new() }
}

fn default_feature_exec() -> (r: GherkinFeature)
    ensures
        r@ == default_feature(),
{
    let sc = vec![default_scenario()];
    let f = GherkinFeature {
        name: "Test cases".to_string(),
        background: String::new(),
        scenarios: sc,
    };
    proof {
        assert(scenarios_view(sc@) =~= seq![("Scenario 1"@, Seq::<char>::empty())]);
    }
    f
}

fn is_section_head_exec(tt: &Vec<char>) -> (r: bool)
    ensures
        r == is_section_head(tt@),
{
    starts_with(tt, &chars_of("Scenario:")) || starts_with(tt, &chars_of("Scenario Outline:"))
        || starts_with(tt, &chars_of("Feature:"))
}

fn collect_exec(ls: &Vec<Vec<char>>, i: usize, tags: bool) -> (r: (Vec<Vec<char>>, usize))
    requires
        i <= ls.len(),
    ensures
        (views(r.0@), r.1 as int) == collect(views(ls@), i as int, tags),
{
    let ghost l = views(ls@);
    let mut acc: Vec<Vec<char>> = Vec::new();
    let mut j = i;
    proof {
        assert(views(acc@) + collect(l, i as int, tags).0 =~= collect(l, i as int, tags).0);
    }
    while j < ls.len() && !is_section_head_exec(&v_trim(&ls[j]))
        invariant
            i <= j <= ls.len(),
            l == views(ls@),
            collect(l, i as int, tags) == (views(acc@) + collect(l, j as int, tags).0, collect(
                l,
                j as int,
                tags,
            ).1),
        decreases ls.len() - j,
    {
        let tt = v_trim(&ls[j]);
        proof {
            assert(l[j as int] == ls@[j as int]@);
        }
        if (tags && starts_with(&tt, &chars_of("@"))) || tt.len() == 0 {
        } else {
            let ghost a = acc@;
            acc.push(tt);
            proof {
                assert(views(acc@) =~= views(a).push(tt@));
                assert(views(acc@) + collect(l, j + 1, tags).0 =~= views(a) + (seq![tt@]
                    + collect(l, j + 1, tags).0));
            }
        }
        j = j + 1;
    }
    proof {
        if j < ls.len() {
            assert(l[j as int] == ls@[j as int]@);
        }
        assert(views(acc@) + collect(l, j as int, tags).0 =~= views(acc@));
    }
    (acc, j)
}

fn clone_scenario(x: &GherkinScenario) -> (r: GherkinScenario)
    ensures
        r@ == x@,
{
    GherkinScenario { name: x.name.clone(), steps: x.steps.clone() }
}

fn clone_scenarios(v: &Vec<GherkinScenario>) -> (r: Vec<GherkinScenario>)
    ensures
        scenarios_view(r@) == scenarios_view(v@),
{
    let mut out: Vec<GherkinScenario> = Vec::new();
    let mut i: usize = 0;
    while i < v.len()
        invariant
            i <= v.len(),
            out.len() == i,
            forall|j: int| 0 <= j < i ==> #[trigger] out@[j]@ == v@[j]@,
        decreases v.len() - i,
    {
        out.push(clone_scenario(&v[i]));
        i = i + 1;
    }
    proof {
        assert(scenarios_view(out@) =~= scenarios_view(v@));
    }
    out
}

fn scenario_name_exec(t: &Vec<char>) -> (r: Vec<char>)
    ensures
        r@ == scenario_name(t@),
{
    match strip_prefix_exec(t, &chars_of("Scenario:")) {
        Some(r) => v_trim(&r),
        None => match strip_prefix_exec(t, &chars_of("Scenario Outline:")) {
            Some(r) => v_trim(&r),
            None => Vec::new(),
        },
    }
}

fn opt_view(o: &Option<GherkinFeature>) -> (r: bool)
    ensures
        r == o is Some,
{
    o.is_some()
}

pub open spec fn opt_feature_view(o: Option<GherkinFeature>) -> Option<FeatureV> {
    match o {
        Some(f) => Some(f@),
        None => None,
    }
}

/// Reads the Gherkin format. Blank text gives one default feature; a
/// feature with a blank name is called `Test cases`, and one without
/// scenarios gets an empty `Scenario 1`.
pub fn parse_gherkin_features(src: &str) -> (r: Vec<GherkinFeature>)
    ensures
        features_view(r@) == parse_features(src@),
{
    let s = chars_of(src);
    if v_trim(&s).len() == 0 {
        let v = vec![default_feature_exec()];
        proof {
            assert(features_view(v@) =~= seq![default_feature()]);
        }
        return v;
    }
    let ls = lines_exec(&s);
    let ghost l = views(ls@);
    let mut features: Vec<GherkinFeature> = Vec::new();
    let mut current: Option<GherkinFeature> = None;
    let mut i: usize = 0;
    proof {
        assert(features_view(features@) =~= Seq::<FeatureV>::empty());
    }
    while i < ls.len()
        invariant
            i <= ls.len(),
            l == views(ls@),
            l == lines(s@),
            gherkin_scan(l, 0, Seq::empty(), None) == gherkin_scan(
                l,
                i as int,
                features_view(features@),
                opt_feature_view(current),
            ),
        decreases ls.len() - i,
    {
        let t = v_trim(&v_trim_end(&ls[i]));
        if let Some(rest) = strip_prefix_exec(&t, &chars_of("Feature:")) {
            match current {
                Some(f) => {
                    let ghost a = features@;
                    features.push(f);
                    proof {
                        assert(features_view(features@) =~= features_view(a).push(f@));
                    }
                },
                None => {},
            }
            let nf = GherkinFeature {
                name: string_of(&v_trim(&rest)),
                background: String::new(),
                scenarios: Vec::new(),
            };
            proof {
                assert(scenarios_view(nf.scenarios@) =~= Seq::<ScenarioV>::empty());
            }
            current = Some(nf);
            i = i + 1;
            continue;
        }
        if !opt_view(&current) {
            i = i + 1;
            continue;
        }
        if starts_with(&t, &chars_of("Background:")) {
            let (bg, j) = collect_exec(&ls, i + 1, false);
            proof {
                lemma_collect(l, i + 1, false);
            }
            let text = join_exec(&bg, &chars_of("\n"));
            match current {
                Some(f) => {
                    current = Some(
                        GherkinFeature {
                            name: f.name,
                            background: string_of(&text),
                            scenarios: f.scenarios,
                        },
                    );
                },
                None => {},
            }
            i = j;
            continue;
        }
        if starts_with(&t, &chars_of("Scenario:")) || starts_with(
            &t,
            &chars_of("Scenario Outline:"),
        ) {
            let name = scenario_name_exec(&t);
            let (steps, j) = collect_exec(&ls, i + 1, true);
            proof {
                lemma_collect(l, i + 1, true);
            }
            match current {
                Some(f) => {
                    let mut scs = f.scenarios;
                    let idx = scs.len();
                    let nm = if name.len() == 0 {
                        concat(&chars_of("Scenario "), &fmt_u128(idx as u128 + 1))
                    } else {
                        name
                    };
                    let sc = GherkinScenario {
                        name: string_of(&nm),
                        steps: string_of(&join_exec(&steps, &chars_of("\n"))),
                    };
                    let ghost a = scs@;
                    scs.push(sc);
                    proof {
                        assert(scenarios_view(scs@) =~= scenarios_view(a).push(sc@));
                    }
                    current = Some(
                        GherkinFeature { name: f.name, background: f.background, scenarios: scs },
                    );
                },
                None => {},
            }
            i = j;
            continue;
        }
        i = i + 1;
    }
    match current {
        Some(f) => {
            let ghost a = features@;
            features.push(f);
            proof {
                assert(features_view(features@) =~= features_view(a).push(f@));
            }
        },
        None => {},
    }
    if features.len() == 0 {
        let v = vec![default_feature_exec()];
        proof {
            assert(features_view(v@) =~= seq![default_feature()]);
        }
        return v;
    }
    let ghost fs = features_view(features@);
    let mut out: Vec<GherkinFeature> = Vec::new();
    let mut k: usize = 0;
    while k < features.len()
        invariant
            k <= features.len(),
            fs == features_view(features@),
            out.len() == k,
            forall|j: int| 0 <= j < k ==> #[trigger] out@[j]@ == normalize_feature(fs[j]),
        decreases features.len() - k,
    {
        let f = &features[k];
        let name = if v_trim(&chars_of(f.name.as_str())).len() == 0 {
            "Test cases".to_string()
        } else {
            f.name.clone()
        };
        let scs = if f.scenarios.len() == 0 {
            let v = vec![default_scenario()];
            proof {
                assert(scenarios_view(v@) =~= seq![("Scenario 1"@, Seq::<char>::empty())]);
            }
            v
        } else {
            clone_scenarios(&f.scenarios)
        };
        let nf = GherkinFeature { name, background: f.background.clone(), scenarios: scs };
        let ghost a = out@;
        out.push(nf);
        k = k + 1;
        proof {
            assert(fs[k - 1] == f@);
            assert(nf@ == normalize_feature(fs[k - 1]));
        }
    }
    proof {
        assert(features_view(out@) =~= fs.map_values(|f: FeatureV| normalize_feature(f)));
    }
    out
}

/// One line of indented text: the line without trailing whitespace,
/// after `indent`; nothing for a blank line.
pub open spec fn indented_line(indent: Seq<char>, l: Seq<char>) -> Seq<char> {
    if trim_end(l).len() == 0 {
        Seq::empty()
    } else {
        indent + trim_end(l) + seq!['\n']
    }
}

pub open spec fn indented_lines(indent: Seq<char>, ls: Seq<Seq<char>>) -> Seq<char>
    decreases ls.len(),
{
    if ls.len() == 0 {
        Seq::empty()
    } else {
        indented_lines(indent, ls.drop_last()) + indented_line(indent, ls.last())
    }
}

/// The non-blank lines of `text`, each after `indent`.
pub open spec fn indented(indent: Seq<char>, text: Seq<char>) -> Seq<char> {
    indented_lines(indent, lines(text))
}

/// The text of the `si`-th scenario of a feature.
pub open spec fn scenario_text(si: int, sc: ScenarioV) -> Seq<char> {
    (if si > 0 {
        seq!['\n']
    } else {
        Seq::empty()
    }) + "  Scenario: "@ + (if trim(sc.0).len() == 0 {
        "Scenario"@
    } else {
        trim(sc.0)
    }) + seq!['\n'] + indented("    "@, trim_end(sc.1))
}

pub open spec fn scenarios_text(scs: Seq<ScenarioV>) -> Seq<char>
    decreases scs.len(),
{
    if scs.len() == 0 {
        Seq::empty()
    } else {
        scenarios_text(scs.drop_last()) + scenario_text(scs.len() - 1, scs.last())
    }
}

/// The heading of the `fi`-th feature.
pub open spec fn feature_head(fi: int, name: Seq<char>) -> Seq<char> {
    (if fi > 0 {
        "\n\n"@
    } else {
        Seq::empty()
    }) + "Feature: "@ + (if trim(name).len() == 0 {
        "Test cases"@
    } else {
        trim(name)
    }) + "\n\n"@
}

/// The background block of a feature; nothing when it is blank.
pub open spec fn background_text(background: Seq<char>) -> Seq<char> {
    let bg = trim_end(background);
    if trim(bg).len() > 0 {
        "  Background:\n"@ + indented("    "@, bg) + seq!['\n']
    } else {
        Seq::empty()
    }
}

/// The text of the `fi`-th feature.
pub open spec fn feature_text(fi: int, f: FeatureV) -> Seq<char> {
    feature_head(fi, f.0) + background_text(f.1) + scenarios_text(f.2)
}

pub open spec fn features_text(fs: Seq<FeatureV>) -> Seq<char>
    decreases fs.len(),
{
    if fs.len() == 0 {
        Seq::empty()
    } else {
        features_text(fs.drop_last()) + feature_text(fs.len() - 1, fs.last())
    }
}

fn push_indented(out: &mut Vec<char>, indent: &Vec<char>, text: &Vec<char>)
    ensures
        final(out)@ == old(out)@ + indented(indent@, text@),
{
    let ls = lines_exec(text);
    let mut i: usize = 0;
    let ghost start = out@;
    while i < ls.len()
        invariant
            i <= ls.len(),
            views(ls@) == lines(text@),
            out@ == start + indented_lines(indent@, views(ls@).take(i as int)),
        decreases ls.len() - i,
    {
        let t = v_trim_end(&ls[i]);
        let ghost before = out@;
        if t.len() > 0 {
            append(out, indent);
            append(out, &t);
            out.push('\n');
        }
        proof {
            let v = views(ls@).take(i + 1);
            assert(v.drop_last() =~= views(ls@).take(i as int));
            assert(v.last() == ls@[i as int]@);
            assert(out@ =~= before + indented_line(indent@, ls@[i as int]@));
        }
        i = i + 1;
    }
    proof {
        assert(views(ls@).take(ls.len() as int) =~= views(ls@));
    }
}

fn scenarios_text_exec(out: &mut Vec<char>, scs: &Vec<GherkinScenario>)
    ensures
        final(out)@ == old(out)@ + scenarios_text(scenarios_view(scs@)),
{
    let indent = chars_of("    ");
    let ghost mid = out@;
    let mut si: usize = 0;
    while si < scs.len()
        invariant
            si <= scs.len(),
            indent@ == "    "@,
            out@ == mid + scenarios_text(scenarios_view(scs@).take(si as int)),
        decreases scs.len() - si,
    {
        let sc = &scs[si];
        let ghost b2 = out@;
        if si > 0 {
            out.push('\n');
        }
        append(out, &chars_of("  Scenario: "));
        let sn = v_trim(&chars_of(sc.name.as_str()));
        if sn.len() == 0 {
            append(out, &chars_of("Scenario"));
        } else {
            append(out, &sn);
        }
        out.push('\n');
        push_indented(out, &indent, &v_trim_end(&chars_of(sc.steps.as_str())));
        proof {
            let v = scenarios_view(scs@).take(si + 1);
            assert(v.drop_last() =~= scenarios_view(scs@).take(si as int));
            assert(v.last() == sc@);
            assert(out@ =~= b2 + scenario_text(si as int, sc@));
        }
        si = si + 1;
    }
    proof {
        assert(scenarios_view(scs@).take(scs.len() as int) =~= scenarios_view(scs@));
    }
}

fn feature_head_exec(out: &mut Vec<char>, fi: usize, f: &GherkinFeature)
    ensures
        final(out)@ == old(out)@ + feature_head(fi as int, f.name@),
{
    let ghost before = out@;
    if fi > 0 {
        append(out, &chars_of("\n\n"));
    }
    let name = v_trim(&chars_of(f.name.as_str()));
    append(out, &chars_of("Feature: "));
    if name.len() == 0 {
        append(out, &chars_of("Test cases"));
    } else {
        append(out, &name);
    }
    append(out, &chars_of("\n\n"));
    proof {
        assert(out@ =~= before + feature_head(fi as int, f.name@));
    }
}

fn background_text_exec(out: &mut Vec<char>, f: &GherkinFeature)
    ensures
        final(out)@ == old(out)@ + background_text(f.background@),
{
    let ghost before = out@;
    let bg = v_trim_end(&chars_of(f.background.as_str()));
    if v_trim(&bg).len() > 0 {
        append(out, &chars_of("  Background:\n"));
        push_indented(out, &chars_of("    "), &bg);
        out.push('\n');
    }
    proof {
        assert(out@ =~= before + background_text(f.background@));
    }
}

fn feature_text_exec(out: &mut Vec<char>, fi: usize, f: &GherkinFeature)
    ensures
        final(out)@ == old(out)@ + feature_text(fi as int, f@),
{
    let ghost before = out@;
    feature_head_exec(out, fi, f);
    background_text_exec(out, f);
    scenarios_text_exec(out, &f.scenarios);
    proof {
        assert(out@ =~= before + feature_text(fi as int, f@));
    }
}

/// Writes features in the Gherkin format.
pub fn render_gherkin_features(features: &Vec<GherkinFeature>) -> (r: String)
    ensures
        r@ == trim_end(features_text(features_view(features@))),
{
    let mut out: Vec<char> = Vec::new();
    let mut fi: usize = 0;
    while fi < features.len()
        invariant
            fi <= features.len(),
            out@ == features_text(features_view(features@).take(fi as int)),
        decreases features.len() - fi,
    {
        feature_text_exec(&mut out, fi, &features[fi]);
        proof {
            let v = features_view(features@).take(fi + 1);
            assert(v.drop_last() =~= features_view(features@).take(fi as int));
            assert(v.last() == features@[fi as int]@);
        }
        fi = fi + 1;
    }
    proof {
        assert(features_view(features@).take(features.len() as int) =~= features_view(features@));
    }
    string_of(&v_trim_end(&out))
}

/// The first word of a step line.
pub open spec fn keyword(t: Seq<char>) -> Seq<char> {
    match find(t, seq![' ']) {
        Some(i) => t.take(i),
        None => t,
    }
}

pub open spec fn step_error(n: nat, what: Seq<char>) -> Seq<char> {
    "steps line "@ + dec(n) + ": "@ + what
}

/// The check of step lines from line `i` on, given which of `Given`,
/// `When` and `Then` came before: the first offending line's message,
/// or which of the three occur.
pub open spec fn steps_check(ls: Seq<Seq<char>>, i: int, g: bool, w: bool, th: bool) -> Result<
    (bool, bool, bool),
    Seq<char>,
>
    decreases ls.len() - i,
{
    if i < 0 || i >= ls.len() {
        Ok((g, w, th))
    } else {
        let t = trim(ls[i]);
        let kw = keyword(t);
        if t.len() == 0 {
            steps_check(ls, i + 1, g, w, th)
        } else if kw == "Given"@ {
            steps_check(ls, i + 1, true, w, th)
        } else if kw == "When"@ {
            if !g {
                Err(step_error((i + 1) as nat, "`When` cannot appear before `Given`"@))
            } else {
                steps_check(ls, i + 1, g, true, th)
            }
        } else if kw == "Then"@ {
            if !w {
                Err(step_error((i + 1) as nat, "`Then` cannot appear before `When`"@))
            } else {
                steps_check(ls, i + 1, g, w, true)
            }
        } else if kw == "And"@ || kw == "But"@ {
            if !g {
                Err(step_error((i + 1) as nat, "`And/But` must follow Given/When/Then"@))
            } else {
                steps_check(ls, i + 1, g, w, th)
            }
        } else {
            Err(
                step_error(
                    (i + 1) as nat,
                    "must start with Given/When/Then/And/But (got `"@ + kw + "`)"@,
                ),
            )
        }
    }
}

/// Whether step lines are in order: every non-blank line starts with a
/// step keyword, `When` comes after a `Given`, `Then` after a `When`,
/// `And`/`But` after one of them; and non-blank steps hold all three.
pub open spec fn check_steps(src: Seq<char>) -> Result<(), Seq<char>> {
    match steps_check(lines(src), 0, false, false, false) {
        Err(m) => Err(m),
        Ok(r) => if trim(src).len() == 0 || (r.0 && r.1 && r.2) {
            Ok(())
        } else {
            Err("steps must include at least one Given, one When, and one Then"@)
        },
    }
}

proof fn lemma_blank_prefix(ls: Seq<Seq<char>>, j: int, i: int)
    requires
        0 <= j <= i < ls.len(),
        forall|k: int| 0 <= k < i ==> trim(#[trigger] ls[k]).len() == 0,
    ensures
        steps_check(ls, j, false, false, false) == steps_check(ls, i, false, false, false),
    decreases i - j,
{
    if j < i {
        lemma_blank_prefix(ls, j + 1, i);
    }
}

/// Steps must open with `Given`: when the first non-blank step line
/// opens with `When`, `Then`, `And` or `But`, the steps are refused at
/// that line, with the rule it breaks.
pub proof fn lemma_steps_open_with_given(src: Seq<char>, i: int)
    requires
        0 <= i < lines(src).len(),
        forall|k: int| 0 <= k < i ==> trim(#[trigger] lines(src)[k]).len() == 0,
        trim(lines(src)[i]).len() > 0,
    ensures
        keyword(trim(lines(src)[i])) == "When"@ ==> check_steps(src) == Err::<(), Seq<char>>(
            step_error((i + 1) as nat, "`When` cannot appear before `Given`"@),
        ),
        keyword(trim(lines(src)[i])) == "Then"@ ==> check_steps(src) == Err::<(), Seq<char>>(
            step_error((i + 1) as nat, "`Then` cannot appear before `When`"@),
        ),
        (keyword(trim(lines(src)[i])) == "And"@ || keyword(trim(lines(src)[i])) == "But"@)
            ==> check_steps(src) == Err::<(), Seq<char>>(
            step_error((i + 1) as nat, "`And/But` must follow Given/When/Then"@),
        ),
{
    reveal_strlit("Given");
    reveal_strlit("When");
    reveal_strlit("Then");
    reveal_strlit("And");
    reveal_strlit("But");
    let ls = lines(src);
    lemma_blank_prefix(ls, 0, i);
    let kw = keyword(trim(ls[i]));
    if kw == "When"@ {
        assert(kw != "Given"@) by {
            assert("When"@.len() != "Given"@.len());
        }
    }
    if kw == "Then"@ {
        assert(kw != "Given"@) by {
            assert("Then"@.len() != "Given"@.len());
        }
        assert(kw != "When"@) by {
            assert("Then"@[0] == 'T');
        }
    }
    if kw == "And"@ || kw == "But"@ {
        assert(kw != "Given"@ && kw != "When"@ && kw != "Then"@) by {
            assert(kw.len() == 3);
        }
    }
}

proof fn lemma_check_err(
    src: Seq<char>,
    l: Seq<Seq<char>>,
    i: int,
    g: bool,
    w: bool,
    th: bool,
    e: Seq<char>,
)
    requires
        l == lines(src),
        steps_check(l, 0, false, false, false) == steps_check(l, i, g, w, th),
        steps_check(l, i, g, w, th) == Err::<(bool, bool, bool), Seq<char>>(e),
    ensures
        check_steps(src) == Err::<(), Seq<char>>(e),
{
}

fn keyword_exec(t: &Vec<char>) -> (r: Vec<char>)
    ensures
        r@ == keyword(t@),
{
    let sp: Vec<char> = vec![' '];
    proof {
        assert(sp@ =~= seq![' ']);
    }
    match find_exec(t, &sp) {
        Some(i) => {
            proof {
                lemma_find_from_props(t@, sp@, 0);
            }
            slice(t, 0, i)
        },
        None => t.clone(),
    }
}

fn step_error_exec(n: usize, what: &str) -> (r: String)
    ensures
        r@ == step_error(n as nat + 1, what@),
{
    let mut v = chars_of("steps line ");
    append(&mut v, &fmt_u128(n as u128 + 1));
    append(&mut v, &chars_of(": "));
    append(&mut v, &chars_of(what));
    string_of(&v)
}

/// Checks the order of step keywords.
pub fn validate_gherkin_steps(src: &str) -> (r: Result<(), String>)
    ensures
        match (r, check_steps(src@)) {
            (Ok(()), Ok(())) => true,
            (Err(msg), Err(want)) => msg@ == want,
            _ => false,
        },
{
    let s = chars_of(src);
    let ls = lines_exec(&s);
    let ghost l = views(ls@);
    let mut g = false;
    let mut w = false;
    let mut th = false;
    let mut i: usize = 0;
    while i < ls.len()
        invariant
            i <= ls.len(),
            l == views(ls@),
            l == lines(s@),
            s@ == src@,
            steps_check(l, 0, false, false, false) == steps_check(l, i as int, g, w, th),
        decreases ls.len() - i,
    {
        let t = v_trim(&ls[i]);
        proof {
            assert(l[i as int] == ls@[i as int]@);
        }
        if t.len() == 0 {
            i = i + 1;
            continue;
        }
        let kw = keyword_exec(&t);
        proof {
            reveal_strlit("Given");
            reveal_strlit("When");
            reveal_strlit("Then");
        }
        if eq(&kw, &chars_of("Given")) {
            g = true;
        } else if eq(&kw, &chars_of("When")) {
            if !g {
                let e = step_error_exec(i, "`When` cannot appear before `Given`");
                proof {
                    lemma_check_err(src@, l, i as int, g, w, th, e@);
                }
                return Err(e);
            }
            w = true;
        } else if eq(&kw, &chars_of("Then")) {
            if !w {
                let e = step_error_exec(i, "`Then` cannot appear before `When`");
                proof {
                    lemma_check_err(src@, l, i as int, g, w, th, e@);
                }
                return Err(e);
            }
            th = true;
        } else if eq(&kw, &chars_of("And")) || eq(&kw, &chars_of("But")) {
            if !g {
                let e = step_error_exec(i, "`And/But` must follow Given/When/Then");
                proof {
                    lemma_check_err(src@, l, i as int, g, w, th, e@);
                }
                return Err(e);
            }
        } else {
            let mut m = chars_of("steps line ");
            append(&mut m, &fmt_u128(i as u128 + 1));
            append(&mut m, &chars_of(": must start with Given/When/Then/And/But (got `"));
            append(&mut m, &kw);
            append(&mut m, &chars_of("`)"));
            proof {
                reveal_strlit(": must start with Given/When/Then/And/But (got `");
                reveal_strlit(": ");
                reveal_strlit("must start with Given/When/Then/And/But (got `");
                assert(m@ =~= step_error((i + 1) as nat, "must start with Given/When/Then/And/But (got `"@ + kw@ + "`)"@));
            }
            let e = string_of(&m);
            proof {
                lemma_check_err(src@, l, i as int, g, w, th, e@);
            }
            return Err(e);
        }
        i = i + 1;
    }
    if v_trim(&s).len() == 0 || (g && w && th) {
        Ok(())
    } else {
        Err("steps must include at least one Given, one When, and one Then".to_string())
    }
}

// ---------------------------------------------------------------------
// Editing.

/// `b` differs from `a` at most in its mode.
pub open spec fn gh_only_mode(a: GherkinEditorState, b: GherkinEditorState) -> bool {
    &&& b.form_field_index == a.form_field_index
    &&& b.features == a.features
    &&& b.feature_cursor == a.feature_cursor
    &&& b.scenario_cursor == a.scenario_cursor
}

/// The name a new item gets from `input`: the trimmed input, or the
/// item's word and its number when the input is blank.
pub open spec fn gh_new_name(input: Seq<char>, word: Seq<char>, n: nat) -> Seq<char> {
    if trim(input).len() == 0 {
        word + " "@ + dec(n + 1)
    } else {
        trim(input)
    }
}

/// A feature with a new name.
pub open spec fn gh_renamed(f: FeatureV, name: Seq<char>) -> FeatureV {
    (name, f.1, f.2)
}

/// The features with the scenario at `(fc, sc)` replaced.
pub open spec fn gh_set_scenario(fs: Seq<FeatureV>, fc: int, sc: int, x: ScenarioV) -> Seq<
    FeatureV,
> {
    fs.update(fc, (fs[fc].0, fs[fc].1, fs[fc].2.update(sc, x)))
}

/// There is a scenario at `(fc, sc)`.
pub open spec fn gh_has(fs: Seq<FeatureV>, fc: int, sc: int) -> bool {
    0 <= fc < fs.len() && 0 <= sc < fs[fc].2.len()
}

/// The message with which the steps editor of `m` is refused, if it is
/// one and its steps break the order of keywords.
pub open spec fn gh_rejected(m: GherkinEditorMode) -> Option<Seq<char>> {
    match m {
        GherkinEditorMode::EditSteps { editor } => match check_steps(editor.value@) {
            Err(e) => Some(e),
            Ok(_) => None,
        },
        _ => None,
    }
}

/// The features after confirming the prompt `m` with the cursors at
/// `(fc, sc)`.
pub open spec fn gh_confirmed(m: GherkinEditorMode, fs: Seq<FeatureV>, fc: int, sc: int) -> Seq<
    FeatureV,
> {
    match m {
        GherkinEditorMode::AddFeature { input } => fs.push(
            (
                gh_new_name(input@, "Feature"@, fs.len()),
                Seq::empty(),
                seq![("Scenario 1"@, Seq::empty())],
            ),
        ),
        GherkinEditorMode::RenameFeature { input } => if 0 <= fc < fs.len() && trim(input@).len()
            > 0 {
            fs.update(fc, gh_renamed(fs[fc], trim(input@)))
        } else {
            fs
        },
        GherkinEditorMode::EditFeature { input } => if 0 <= fc < fs.len() && trim(input@).len()
            > 0 {
            fs.update(fc, gh_renamed(fs[fc], trim(input@)))
        } else {
            fs
        },
        GherkinEditorMode::AddScenario { input } => if 0 <= fc < fs.len() {
            fs.update(
                fc,
                (
                    fs[fc].0,
                    fs[fc].1,
                    fs[fc].2.push((gh_new_name(input@, "Scenario"@, fs[fc].2.len()), Seq::empty())),
                ),
            )
        } else {
            fs
        },
        GherkinEditorMode::RenameScenario { input } => if gh_has(fs, fc, sc) && trim(input@).len()
            > 0 {
            gh_set_scenario(fs, fc, sc, (trim(input@), fs[fc].2[sc].1))
        } else {
            fs
        },
        GherkinEditorMode::EditBackground { editor } => if 0 <= fc < fs.len() {
            fs.update(fc, (fs[fc].0, trim_end(editor.value@), fs[fc].2))
        } else {
            fs
        },
        GherkinEditorMode::EditSteps { editor } => if gh_has(fs, fc, sc) {
            gh_set_scenario(fs, fc, sc, (fs[fc].2[sc].0, trim_end(editor.value@)))
        } else {
            fs
        },
        GherkinEditorMode::Browse => fs,
    }
}

/// The features after deleting the one at `idx`: never empty, a
/// `Test cases` feature with one empty scenario takes the last one's
/// place.
pub open spec fn gh_after_delete_feature(fs: Seq<FeatureV>, idx: int) -> Seq<FeatureV> {
    let rest = fs.remove(idx);
    if rest.len() == 0 {
        seq![("Test cases"@, Seq::empty(), seq![("Scenario 1"@, Seq::empty())])]
    } else {
        rest
    }
}

/// The scenarios after deleting the one at `idx`: never empty.
pub open spec fn gh_after_delete_scenario(scs: Seq<ScenarioV>, idx: int) -> Seq<ScenarioV> {
    let rest = scs.remove(idx);
    if rest.len() == 0 {
        seq![("Scenario 1"@, Seq::empty())]
    } else {
        rest
    }
}

/// A scenario with a name and no steps.
fn empty_scenario(name: String) -> (r: GherkinScenario)
    ensures
        r@ == (name@, Seq::<char>::empty()),
{
    GherkinScenario { name, steps: String::new() }
}

/// `Scenario 1`, with no steps.
fn first_scenario() -> (r: GherkinScenario)
    ensures
        r@ == ("Scenario 1"@, Seq::<char>::empty()),
{
    proof {
        reveal_strlit("Scenario 1");
    }
    empty_scenario("Scenario 1".to_string())
}

/// `word n+1`, or the trimmed input when it is not blank.
fn new_name_exec(input: &String, word: &str, n: usize) -> (r: String)
    ensures
        r@ == gh_new_name(input@, word@, n as nat),
{
    let t = v_trim(&chars_of(input.as_str()));
    if t.len() == 0 {
        let mut v = chars_of(word);
        v.push(' ');
        append(&mut v, &fmt_u128(n as u128 + 1));
        proof {
            assert(v@ =~= word@ + " "@ + dec((n + 1) as nat)) by {
                reveal_strlit(" ");
            }
        }
        string_of(&v)
    } else {
        string_of(&t)
    }
}

/// `b` is `a` after its prompt was accepted.
pub open spec fn gh_accepted(a: GherkinEditorState, b: GherkinEditorState) -> bool {
        let fs = features_view(a.features@);
        let fc = a.feature_cursor as int;
        &&& b.mode is Browse
        &&& b.form_field_index == a.form_field_index
        &&& features_view(b.features@) == gh_confirmed(
            a.mode,
            fs,
            fc,
            a.scenario_cursor as int,
        )
        &&& b.feature_cursor == if a.mode is AddFeature {
            fs.len() as int
        } else {
            fc
        }
        &&& b.scenario_cursor == if a.mode is AddFeature {
            0
        } else if a.mode is AddScenario && 0 <= fc < fs.len() {
            fs[fc].2.len() as int
        } else {
            a.scenario_cursor as int
        }
}

impl GherkinEditorState {
    /// The multi-line editors' carets sit on character boundaries.
    pub open spec fn wf(&self) -> bool {
        match self.mode {
            GherkinEditorMode::EditBackground { editor } => editor.caret_ok(),
            GherkinEditorMode::EditSteps { editor } => editor.caret_ok(),
            _ => true,
        }
    }

    /// Moves around the ring of features while browsing, back to the
    /// first scenario.
    pub fn move_feature(&mut self, d: isize)
        ensures
            gh_move_feature_post(*old(self), *final(self), d),
    {
        if matches!(self.mode, GherkinEditorMode::Browse) && self.features.len() > 0 {
            self.feature_cursor = cycle_wrap(self.features.len(), self.feature_cursor, d);
            self.scenario_cursor = 0;
        }
    }

    /// Moves around the ring of scenarios of the current feature while
    /// browsing.
    pub fn move_scenario(&mut self, d: isize)
        ensures
            gh_move_scenario_post(*old(self), *final(self), d),
    {
        if matches!(self.mode, GherkinEditorMode::Browse) && self.feature_cursor
            < self.features.len() {
            let n = self.features[self.feature_cursor].scenarios.len();
            if n > 0 {
                self.scenario_cursor = cycle_wrap(n, self.scenario_cursor, d);
            }
        }
    }

    /// The name of the current feature, or nothing.
    fn feature_name(&self) -> (r: String)
        ensures
            r@ == if self.feature_cursor < self.features.len() {
                self.features@[self.feature_cursor as int].name@
            } else {
                Seq::empty()
            },
    {
        if self.feature_cursor < self.features.len() {
            copy_string(&self.features[self.feature_cursor].name)
        } else {
            String::new()
        }
    }

    /// The current scenario, if there is one.
    pub open spec fn scenario_at(&self) -> Option<GherkinScenario> {
        if self.feature_cursor < self.features.len() && self.scenario_cursor
            < self.features@[self.feature_cursor as int].scenarios.len() {
            Some(
                self.features@[self.feature_cursor as int].scenarios@[self.scenario_cursor as int],
            )
        } else {
            None
        }
    }

    /// Opens the prompt for the name of a new feature.
    pub fn start_add_feature(&mut self)
        ensures
            gh_start_add_feature_post(*old(self), *final(self)),
    {
        self.mode = GherkinEditorMode::AddFeature { input: String::new() };
    }

    /// Opens the prompt for the name of a new scenario.
    pub fn start_add_scenario(&mut self)
        ensures
            gh_start_add_scenario_post(*old(self), *final(self)),
    {
        self.mode = GherkinEditorMode::AddScenario { input: String::new() };
    }

    /// Opens the prompt for a new name of the current feature.
    pub fn start_rename_feature(&mut self)
        ensures
            gh_start_rename_feature_post(*old(self), *final(self)),
    {
        let current = self.feature_name();
        self.mode = GherkinEditorMode::RenameFeature { input: current };
    }

    /// Opens the prompt for the name of the current feature.
    pub fn start_edit_feature(&mut self)
        ensures
            gh_start_edit_feature_post(*old(self), *final(self)),
    {
        let current = self.feature_name();
        self.mode = GherkinEditorMode::EditFeature { input: current };
    }

    /// Opens the prompt for a new name of the current scenario.
    pub fn start_rename_scenario(&mut self)
        ensures
            gh_start_rename_scenario_post(*old(self), *final(self)),
    {
        let current = if self.feature_cursor < self.features.len() && self.scenario_cursor
            < self.features[self.feature_cursor].scenarios.len() {
            copy_string(&self.features[self.feature_cursor].scenarios[self.scenario_cursor].name)
        } else {
            String::new()
        };
        self.mode = GherkinEditorMode::RenameScenario { input: current };
    }

    /// Opens the multi-line editor on the current feature's background.
    pub fn start_edit_background(&mut self)
        ensures
            gh_start_edit_background_post(*old(self), *final(self)),
    {
        let current = if self.feature_cursor < self.features.len() {
            copy_string(&self.features[self.feature_cursor].background)
        } else {
            String::new()
        };
        proof {
            reveal_strlit("Background");
        }
        let editor = FormField::plain("Background", current.as_str(), false, true);
        self.mode = GherkinEditorMode::EditBackground { editor };
    }

    /// Opens the multi-line editor on the current scenario's steps.
    pub fn start_edit_steps(&mut self)
        ensures
            gh_start_edit_steps_post(*old(self), *final(self)),
    {
        let current = if self.feature_cursor < self.features.len() && self.scenario_cursor
            < self.features[self.feature_cursor].scenarios.len() {
            copy_string(&self.features[self.feature_cursor].scenarios[self.scenario_cursor].steps)
        } else {
            String::new()
        };
        proof {
            reveal_strlit("Steps");
        }
        let editor = FormField::plain("Steps", current.as_str(), false, true);
        self.mode = GherkinEditorMode::EditSteps { editor };
    }

    /// Types `c` into the open prompt or multi-line editor.
    pub fn input_char(&mut self, c: char)
        requires
            old(self).wf(),
        ensures
            gh_input_char_post(*old(self), *final(self), c),
    {
        match &mut self.mode {
            GherkinEditorMode::AddFeature { input } => push_char(input, c),
            GherkinEditorMode::RenameFeature { input } => push_char(input, c),
            GherkinEditorMode::EditFeature { input } => push_char(input, c),
            GherkinEditorMode::RenameScenario { input } => push_char(input, c),
            GherkinEditorMode::AddScenario { input } => push_char(input, c),
            GherkinEditorMode::EditBackground { editor } => editor.insert_char(c),
            GherkinEditorMode::EditSteps { editor } => editor.insert_char(c),
            GherkinEditorMode::Browse => {},
        }
    }

    /// Deletes the last character of the open prompt, or the character
    /// before the multi-line editor's caret.
    pub fn backspace(&mut self)
        requires
            old(self).wf(),
        ensures
            gh_backspace_post(*old(self), *final(self)),
    {
        match &mut self.mode {
            GherkinEditorMode::AddFeature { input } => {
                pop_char(input);
            },
            GherkinEditorMode::RenameFeature { input } => {
                pop_char(input);
            },
            GherkinEditorMode::EditFeature { input } => {
                pop_char(input);
            },
            GherkinEditorMode::RenameScenario { input } => {
                pop_char(input);
            },
            GherkinEditorMode::AddScenario { input } => {
                pop_char(input);
            },
            GherkinEditorMode::EditBackground { editor } => editor.backspace(),
            GherkinEditorMode::EditSteps { editor } => editor.backspace(),
            GherkinEditorMode::Browse => {},
        }
    }

    /// Moves the caret of the open multi-line editor; nothing otherwise.
    pub fn move_caret(&mut self, m: CaretMove)
        requires
            old(self).wf(),
        ensures
            gh_move_caret_post(*old(self), *final(self), m),
    {
        match &mut self.mode {
            GherkinEditorMode::EditBackground { editor } => editor.move_caret(m),
            GherkinEditorMode::EditSteps { editor } => editor.move_caret(m),
            _ => {},
        }
    }

    /// Applies the open prompt and returns to browsing. Steps whose
    /// keywords come out of order are refused: nothing changes and the
    /// reason comes back.
    pub fn confirm(&mut self) -> (warn: Option<String>)
        requires
            old(self).wf(),
        ensures
            final(self).wf(),
            match gh_rejected(old(self).mode) {
                Some(e) => *final(self) == *old(self) && (warn matches Some(w) && w@ == e),
                None => warn is None && gh_accepted(*old(self), *final(self)),
            },
    {
        let fc = self.feature_cursor;
        let sc = self.scenario_cursor;
        let ghost fs = features_view(self.features@);
        if let GherkinEditorMode::EditSteps { editor } = &self.mode {
            match validate_gherkin_steps(editor.value.as_str()) {
                Err(msg) => {
                    return Some(msg);
                },
                Ok(()) => {},
            }
        }
        let mut mode = GherkinEditorMode::Browse;
        std::mem::swap(&mut mode, &mut self.mode);
        match mode {
            GherkinEditorMode::AddFeature { input } => {
                proof {
                    reveal_strlit("Feature");
                }
                let name = new_name_exec(&input, "Feature", self.features.len());
                let f = GherkinFeature {
                    name,
                    background: String::new(),
                    scenarios: vec![first_scenario()],
                };
                proof {
                    assert(scenarios_view(f.scenarios@) =~= seq![("Scenario 1"@, Seq::<char>::empty())]);
                }
                self.features.push(f);
                self.feature_cursor = self.features.len() - 1;
                self.scenario_cursor = 0;
                proof {
                    assert(features_view(self.features@) =~= gh_confirmed(mode, fs, fc as int, sc as int));
                }
            },
            GherkinEditorMode::RenameFeature { input } => {
                self.rename_feature_to(&input);
                proof {
                    assert(features_view(self.features@) =~= gh_confirmed(mode, fs, fc as int, sc as int));
                }
            },
            GherkinEditorMode::EditFeature { input } => {
                self.rename_feature_to(&input);
                proof {
                    assert(features_view(self.features@) =~= gh_confirmed(mode, fs, fc as int, sc as int));
                }
            },
            GherkinEditorMode::AddScenario { input } => {
                if fc < self.features.len() {
                    proof {
                        reveal_strlit("Scenario");
                    }
                    let mut f = self.features.remove(fc);
                    let ghost sv = scenarios_view(f.scenarios@);
                    let name = new_name_exec(&input, "Scenario", f.scenarios.len());
                    f.scenarios.push(empty_scenario(name));
                    proof {
                        assert(scenarios_view(f.scenarios@) =~= sv.push((gh_new_name(input@, "Scenario"@, sv.len()), Seq::empty())));
                    }
                    self.scenario_cursor = f.scenarios.len() - 1;
                    self.features.insert(fc, f);
                    proof {
                        assert(features_view(self.features@) =~= gh_confirmed(mode, fs, fc as int, sc as int));
                    }
                }
            },
            GherkinEditorMode::RenameScenario { input } => {
                let t = v_trim(&chars_of(input.as_str()));
                if fc < self.features.len() && sc < self.features[fc].scenarios.len() && t.len()
                    > 0 {
                    self.set_scenario_at(fc, sc, Some(string_of(&t)), None);
                    proof {
                        assert(features_view(self.features@) =~= gh_confirmed(mode, fs, fc as int, sc as int));
                    }
                }
            },
            GherkinEditorMode::EditBackground { editor } => {
                if fc < self.features.len() {
                    let bg = string_of(&v_trim_end(&chars_of(editor.value.as_str())));
                    let mut f = self.features.remove(fc);
                    f.background = bg;
                    self.features.insert(fc, f);
                    proof {
                        assert(features_view(self.features@) =~= gh_confirmed(mode, fs, fc as int, sc as int));
                    }
                }
            },
            GherkinEditorMode::EditSteps { editor } => {
                if fc < self.features.len() && sc < self.features[fc].scenarios.len() {
                    let steps = string_of(&v_trim_end(&chars_of(editor.value.as_str())));
                    self.set_scenario_at(fc, sc, None, Some(steps));
                    proof {
                        assert(features_view(self.features@) =~= gh_confirmed(mode, fs, fc as int, sc as int));
                    }
                }
            },
            GherkinEditorMode::Browse => {},
        }
        None
    }

    /// Renames the current feature to the trimmed input, unless blank.
    fn rename_feature_to(&mut self, input: &String)
        ensures
            final(self).form_field_index == old(self).form_field_index,
            final(self).mode == old(self).mode,
            final(self).feature_cursor == old(self).feature_cursor,
            final(self).scenario_cursor == old(self).scenario_cursor,
            features_view(final(self).features@) == ({
                let fs = features_view(old(self).features@);
                let fc = old(self).feature_cursor as int;
                if 0 <= fc < fs.len() && trim(input@).len() > 0 {
                    fs.update(fc, gh_renamed(fs[fc], trim(input@)))
                } else {
                    fs
                }
            }),
    {
        let ghost fs = features_view(self.features@);
        let fc = self.feature_cursor;
        let t = v_trim(&chars_of(input.as_str()));
        if fc < self.features.len() && t.len() > 0 {
            let mut f = self.features.remove(fc);
            f.name = string_of(&t);
            self.features.insert(fc, f);
            proof {
                assert(features_view(self.features@) =~= fs.update(fc as int, gh_renamed(fs[fc as int], trim(input@))));
            }
        }
    }

    /// Sets the name or the steps of the scenario at `(fc, sc)`.
    fn set_scenario_at(&mut self, fc: usize, sc: usize, name: Option<String>, steps: Option<String>)
        requires
            fc < old(self).features.len(),
            sc < old(self).features@[fc as int].scenarios.len(),
        ensures
            final(self).form_field_index == old(self).form_field_index,
            final(self).mode == old(self).mode,
            final(self).feature_cursor == old(self).feature_cursor,
            final(self).scenario_cursor == old(self).scenario_cursor,
            features_view(final(self).features@) == ({
                let fs = features_view(old(self).features@);
                let x = fs[fc as int].2[sc as int];
                gh_set_scenario(
                    fs,
                    fc as int,
                    sc as int,
                    (
                        match name {
                            Some(n) => n@,
                            None => x.0,
                        },
                        match steps {
                            Some(t) => t@,
                            None => x.1,
                        },
                    ),
                )
            }),
    {
        let ghost fs = features_view(self.features@);
        let mut f = self.features.remove(fc);
        let ghost sv = scenarios_view(f.scenarios@);
        let mut x = f.scenarios.remove(sc);
        match name {
            Some(n) => x.name = n,
            None => {},
        }
        match steps {
            Some(t) => x.steps = t,
            None => {},
        }
        f.scenarios.insert(sc, x);
        proof {
            assert(scenarios_view(f.scenarios@) =~= sv.update(sc as int, x@));
        }
        self.features.insert(fc, f);
        proof {
            assert(features_view(self.features@) =~= fs.update(fc as int, (fs[fc as int].0, fs[fc as int].1, sv.update(sc as int, x@))));
        }
    }

    /// Deletes the current feature while browsing; a `Test cases`
    /// feature replaces the last one.
    pub fn delete_feature(&mut self)
        ensures
            gh_delete_feature_post(*old(self), *final(self)),
    {
        if !matches!(self.mode, GherkinEditorMode::Browse) || self.features.len() == 0 {
            return;
        }
        let ghost fs = features_view(self.features@);
        let idx = if self.feature_cursor < self.features.len() {
            self.feature_cursor
        } else {
            self.features.len() - 1
        };
        self.features.remove(idx);
        if self.features.len() == 0 {
            proof {
                reveal_strlit("Test cases");
            }
            let f = GherkinFeature {
                name: "Test cases".to_string(),
                background: String::new(),
                scenarios: vec![first_scenario()],
            };
            proof {
                assert(scenarios_view(f.scenarios@) =~= seq![("Scenario 1"@, Seq::<char>::empty())]);
            }
            self.features.push(f);
        }
        proof {
            assert(features_view(self.features@) =~= gh_after_delete_feature(fs, idx as int));
        }
        if self.feature_cursor >= self.features.len() {
            self.feature_cursor = self.features.len() - 1;
        }
        self.scenario_cursor = 0;
    }

    /// Deletes the current scenario while browsing; an empty
    /// `Scenario 1` replaces the last one of a feature.
    pub fn delete_scenario(&mut self)
        ensures
            gh_delete_scenario_post(*old(self), *final(self)),
    {
        let fc = self.feature_cursor;
        if !matches!(self.mode, GherkinEditorMode::Browse) || fc >= self.features.len() {
            return;
        }
        if self.features[fc].scenarios.len() == 0 {
            return;
        }
        let ghost fs = features_view(self.features@);
        let mut f = self.features.remove(fc);
        let ghost sv = scenarios_view(f.scenarios@);
        let idx = if self.scenario_cursor < f.scenarios.len() {
            self.scenario_cursor
        } else {
            f.scenarios.len() - 1
        };
        f.scenarios.remove(idx);
        if f.scenarios.len() == 0 {
            f.scenarios.push(first_scenario());
        }
        proof {
            assert(scenarios_view(f.scenarios@) =~= gh_after_delete_scenario(sv, idx as int));
        }
        if self.scenario_cursor >= f.scenarios.len() {
            self.scenario_cursor = f.scenarios.len() - 1;
        }
        self.features.insert(fc, f);
        proof {
            assert(features_view(self.features@) =~= fs.update(fc as int, (fs[fc as int].0, fs[fc as int].1, gh_after_delete_scenario(sv, idx as int))));
        }
    }
}

/// `b` is `a` after `move_feature`.
pub open spec fn gh_move_feature_post(a: GherkinEditorState, b: GherkinEditorState, d: isize) -> bool {
    &&& (if a.mode is Browse && a.features.len() > 0 {
                b == (GherkinEditorState {
                    feature_cursor: wrap_index(
                        a.features.len() as int,
                        a.feature_cursor as int,
                        d as int,
                    ) as usize,
                    scenario_cursor: 0,
                    ..a
                })
            } else {
                b == a
            })
}

/// `b` is `a` after `move_scenario`.
pub open spec fn gh_move_scenario_post(a: GherkinEditorState, b: GherkinEditorState, d: isize) -> bool {
    &&& (if a.mode is Browse && a.feature_cursor < a.features.len()
                && a.features@[a.feature_cursor as int].scenarios.len() > 0 {
                b == (GherkinEditorState {
                    scenario_cursor: wrap_index(
                        a.features@[a.feature_cursor as int].scenarios.len() as int,
                        a.scenario_cursor as int,
                        d as int,
                    ) as usize,
                    ..a
                })
            } else {
                b == a
            })
}

/// `b` is `a` after `start_add_feature`.
pub open spec fn gh_start_add_feature_post(a: GherkinEditorState, b: GherkinEditorState) -> bool {
    &&& (gh_only_mode(a, b))
    &&& (b.mode matches GherkinEditorMode::AddFeature { input } && input@.len() == 0)
}

/// `b` is `a` after `start_add_scenario`.
pub open spec fn gh_start_add_scenario_post(a: GherkinEditorState, b: GherkinEditorState) -> bool {
    &&& (gh_only_mode(a, b))
    &&& (b.mode matches GherkinEditorMode::AddScenario { input } && input@.len()
                == 0)
}

/// `b` is `a` after `start_rename_feature`.
pub open spec fn gh_start_rename_feature_post(a: GherkinEditorState, b: GherkinEditorState) -> bool {
    &&& (gh_only_mode(a, b))
    &&& (b.mode matches GherkinEditorMode::RenameFeature { input } && input@ == (
            if a.feature_cursor < a.features.len() {
                a.features@[a.feature_cursor as int].name@
            } else {
                Seq::empty()
            }))
}

/// `b` is `a` after `start_edit_feature`.
pub open spec fn gh_start_edit_feature_post(a: GherkinEditorState, b: GherkinEditorState) -> bool {
    &&& (gh_only_mode(a, b))
    &&& (b.mode matches GherkinEditorMode::EditFeature { input } && input@ == (
            if a.feature_cursor < a.features.len() {
                a.features@[a.feature_cursor as int].name@
            } else {
                Seq::empty()
            }))
}

/// `b` is `a` after `start_rename_scenario`.
pub open spec fn gh_start_rename_scenario_post(a: GherkinEditorState, b: GherkinEditorState) -> bool {
    &&& (gh_only_mode(a, b))
    &&& (b.mode matches GherkinEditorMode::RenameScenario { input } && input@ == (
            match a.scenario_at() {
                Some(sc) => sc.name@,
                None => Seq::empty(),
            }))
}

/// `b` is `a` after `start_edit_background`.
pub open spec fn gh_start_edit_background_post(a: GherkinEditorState, b: GherkinEditorState) -> bool {
    &&& (gh_only_mode(a, b))
    &&& (b.mode matches GherkinEditorMode::EditBackground { editor } && {
                &&& editor.value@ == (if a.feature_cursor < a.features.len() {
                    a.features@[a.feature_cursor as int].background@
                } else {
                    Seq::empty()
                })
                &&& editor.label@ == "Background"@
                &&& !editor.required
                &&& editor.multiline
                &&& editor.caret == byte_len(editor.value@)
                &&& editor.field_id is None
                &&& editor.kind is None
                &&& editor.options@.len() == 0
            })
    &&& (b.wf())
}

/// `b` is `a` after `start_edit_steps`.
pub open spec fn gh_start_edit_steps_post(a: GherkinEditorState, b: GherkinEditorState) -> bool {
    &&& (gh_only_mode(a, b))
    &&& (b.mode matches GherkinEditorMode::EditSteps { editor } && {
                &&& editor.value@ == (match a.scenario_at() {
                    Some(sc) => sc.steps@,
                    None => Seq::empty(),
                })
                &&& editor.label@ == "Steps"@
                &&& !editor.required
                &&& editor.multiline
                &&& editor.caret == byte_len(editor.value@)
                &&& editor.field_id is None
                &&& editor.kind is None
                &&& editor.options@.len() == 0
            })
    &&& (b.wf())
}

/// `b` is `a` after `input_char`.
pub open spec fn gh_input_char_post(a: GherkinEditorState, b: GherkinEditorState, c: char) -> bool {
    &&& (gh_only_mode(a, b))
    &&& (b.wf())
    &&& (match (a.mode, b.mode) {
                (
                    GherkinEditorMode::AddFeature { input: a },
                    GherkinEditorMode::AddFeature { input: b },
                ) => b@ == a@.push(c),
                (
                    GherkinEditorMode::RenameFeature { input: a },
                    GherkinEditorMode::RenameFeature { input: b },
                ) => b@ == a@.push(c),
                (
                    GherkinEditorMode::EditFeature { input: a },
                    GherkinEditorMode::EditFeature { input: b },
                ) => b@ == a@.push(c),
                (
                    GherkinEditorMode::RenameScenario { input: a },
                    GherkinEditorMode::RenameScenario { input: b },
                ) => b@ == a@.push(c),
                (
                    GherkinEditorMode::AddScenario { input: a },
                    GherkinEditorMode::AddScenario { input: b },
                ) => b@ == a@.push(c),
                (
                    GherkinEditorMode::EditBackground { editor: a },
                    GherkinEditorMode::EditBackground { editor: b },
                ) => typed(a, c, b),
                (
                    GherkinEditorMode::EditSteps { editor: a },
                    GherkinEditorMode::EditSteps { editor: b },
                ) => typed(a, c, b),
                (GherkinEditorMode::Browse, GherkinEditorMode::Browse) => true,
                _ => false,
            })
}

/// `b` is `a` after `backspace`.
pub open spec fn gh_backspace_post(a: GherkinEditorState, b: GherkinEditorState) -> bool {
    &&& (gh_only_mode(a, b))
    &&& (b.wf())
    &&& (match (a.mode, b.mode) {
                (
                    GherkinEditorMode::AddFeature { input: a },
                    GherkinEditorMode::AddFeature { input: b },
                ) => b@ == (if a@.len() > 0 { a@.drop_last() } else { a@ }),
                (
                    GherkinEditorMode::RenameFeature { input: a },
                    GherkinEditorMode::RenameFeature { input: b },
                ) => b@ == (if a@.len() > 0 { a@.drop_last() } else { a@ }),
                (
                    GherkinEditorMode::EditFeature { input: a },
                    GherkinEditorMode::EditFeature { input: b },
                ) => b@ == (if a@.len() > 0 { a@.drop_last() } else { a@ }),
                (
                    GherkinEditorMode::RenameScenario { input: a },
                    GherkinEditorMode::RenameScenario { input: b },
                ) => b@ == (if a@.len() > 0 { a@.drop_last() } else { a@ }),
                (
                    GherkinEditorMode::AddScenario { input: a },
                    GherkinEditorMode::AddScenario { input: b },
                ) => b@ == (if a@.len() > 0 { a@.drop_last() } else { a@ }),
                (
                    GherkinEditorMode::EditBackground { editor: a },
                    GherkinEditorMode::EditBackground { editor: b },
                ) => erased(a, b),
                (
                    GherkinEditorMode::EditSteps { editor: a },
                    GherkinEditorMode::EditSteps { editor: b },
                ) => erased(a, b),
                (GherkinEditorMode::Browse, GherkinEditorMode::Browse) => true,
                _ => false,
            })
}

/// `b` is `a` after `move_caret`.
pub open spec fn gh_move_caret_post(a: GherkinEditorState, b: GherkinEditorState, m: CaretMove) -> bool {
    &&& (gh_only_mode(a, b))
    &&& (b.wf())
    &&& (match (a.mode, b.mode) {
                (
                    GherkinEditorMode::EditBackground { editor: a },
                    GherkinEditorMode::EditBackground { editor: b },
                ) => moved(a, m, b),
                (
                    GherkinEditorMode::EditSteps { editor: a },
                    GherkinEditorMode::EditSteps { editor: b },
                ) => moved(a, m, b),
                (a, b) => !(a is EditBackground) && !(a is EditSteps) && b == a,
            })
}

/// `b` is `a` after `delete_feature`.
pub open spec fn gh_delete_feature_post(a: GherkinEditorState, b: GherkinEditorState) -> bool {
    &&& (if a.mode is Browse && a.features.len() > 0 {
                let n = a.features.len() as int;
                let idx = if a.feature_cursor < n {
                    a.feature_cursor as int
                } else {
                    n - 1
                };
                &&& features_view(b.features@) == gh_after_delete_feature(
                    features_view(a.features@),
                    idx,
                )
                &&& b.feature_cursor == if a.feature_cursor
                    < b.features.len() {
                    a.feature_cursor as int
                } else {
                    b.features.len() - 1
                }
                &&& b.scenario_cursor == 0
                &&& b.mode == a.mode
                &&& b.form_field_index == a.form_field_index
            } else {
                b == a
            })
}

/// `b` is `a` after `delete_scenario`.
pub open spec fn gh_delete_scenario_post(a: GherkinEditorState, b: GherkinEditorState) -> bool {
    &&& (({
                let fc = a.feature_cursor as int;
                if a.mode is Browse && fc < a.features.len()
                    && a.features@[fc].scenarios.len() > 0 {
                    let fs = features_view(a.features@);
                    let n = fs[fc].2.len() as int;
                    let idx = if a.scenario_cursor < n {
                        a.scenario_cursor as int
                    } else {
                        n - 1
                    };
                    let rest = gh_after_delete_scenario(fs[fc].2, idx);
                    &&& features_view(b.features@) == fs.update(
                        fc,
                        (fs[fc].0, fs[fc].1, rest),
                    )
                    &&& b.scenario_cursor == if a.scenario_cursor < rest.len() {
                        a.scenario_cursor as int
                    } else {
                        rest.len() - 1
                    }
                    &&& b.feature_cursor == a.feature_cursor
                    &&& b.mode == a.mode
                    &&& b.form_field_index == a.form_field_index
                } else {
                    b == a
                }
            }))
}


// ---------------------------------------------------------------------
// Reading back what was written.

/// A line of a background (or, with `steps`, of a scenario's steps) that
/// reads back as it is: not blank, trimmed, one line, not a section
/// head, and for steps not a tag.
pub open spec fn g_line_ok(l: Seq<char>, steps: bool) -> bool {
    &&& l.len() > 0
    &&& trim(l) == l
    &&& one_line(l)
    &&& !is_section_head(l)
    &&& !(steps && has_prefix(l, "@"@))
}

/// A background or steps text that is its lines joined by newlines,
/// each line reading back as it is.
pub open spec fn g_text_ok(t: Seq<char>, steps: bool) -> bool {
    &&& join(lines(t), "\n"@) == t
    &&& forall|k: int| 0 <= k < lines(t).len() ==> g_line_ok(#[trigger] lines(t)[k], steps)
}

/// A name that reads back as it is: not blank, trimmed, one line.
pub open spec fn g_name_ok(n: Seq<char>) -> bool {
    n.len() > 0 && trim(n) == n && one_line(n)
}

/// A scenario that the format writes and reads back as it is.
pub open spec fn scen_ok(sc: ScenarioV) -> bool {
    g_name_ok(sc.0) && g_text_ok(sc.1, true)
}

/// A feature that the format writes and reads back as it is.
pub open spec fn feature_ok(f: FeatureV) -> bool {
    &&& g_name_ok(f.0)
    &&& g_text_ok(f.1, false)
    &&& f.2.len() > 0
    &&& forall|k: int| 0 <= k < f.2.len() ==> scen_ok(#[trigger] f.2[k])
}

/// Lines after a four-space indent.
pub open spec fn ind(ls: Seq<Seq<char>>) -> Seq<Seq<char>> {
    ls.map_values(|l: Seq<char>| "    "@ + l)
}

/// The lines the format writes for the `si`-th scenario.
pub open spec fn scen_lines(si: int, sc: ScenarioV) -> Seq<Seq<char>> {
    (if si > 0 {
        seq![Seq::<char>::empty()]
    } else {
        Seq::empty()
    }) + seq!["  Scenario: "@ + sc.0] + ind(lines(sc.1))
}

pub open spec fn scens_lines(scs: Seq<ScenarioV>) -> Seq<Seq<char>>
    decreases scs.len(),
{
    if scs.len() == 0 {
        Seq::empty()
    } else {
        scens_lines(scs.drop_last()) + scen_lines(scs.len() - 1, scs.last())
    }
}

/// The lines the format writes for a background.
pub open spec fn bg_lines(bg: Seq<char>) -> Seq<Seq<char>> {
    if lines(bg).len() > 0 {
        seq!["  Background:"@] + ind(lines(bg)) + seq![Seq::<char>::empty()]
    } else {
        Seq::empty()
    }
}

/// The lines the format writes for the `fi`-th feature.
pub open spec fn feat_lines(fi: int, f: FeatureV) -> Seq<Seq<char>> {
    (if fi > 0 {
        seq![Seq::<char>::empty(), Seq::<char>::empty()]
    } else {
        Seq::empty()
    }) + seq!["Feature: "@ + f.0, Seq::<char>::empty()] + bg_lines(f.1) + scens_lines(f.2)
}

pub open spec fn feats_lines(fs: Seq<FeatureV>) -> Seq<Seq<char>>
    decreases fs.len(),
{
    if fs.len() == 0 {
        Seq::empty()
    } else {
        feats_lines(fs.drop_last()) + feat_lines(fs.len() - 1, fs.last())
    }
}

proof fn lemma_join_last(ls: Seq<Seq<char>>, sep: Seq<char>)
    requires
        ls.len() > 0,
        ls.last().len() > 0,
    ensures
        join(ls, sep).len() > 0,
        join(ls, sep).last() == ls.last().last(),
{
    if ls.len() == 1 {
        assert(ls[0] == ls.last());
    }
}

/// A text that reads back has no trailing whitespace, and is blank only
/// when it has no lines.
proof fn lemma_text_ends(t: Seq<char>, steps: bool)
    requires
        g_text_ok(t, steps),
    ensures
        trim_end(t) == t,
        lines(t).len() > 0 ==> t.len() > 0 && !is_ws(t.last()) && trim(t).len() > 0,
        lines(t).len() == 0 ==> t.len() == 0,
{
    let ls = lines(t);
    if ls.len() > 0 {
        assert(g_line_ok(ls[ls.len() - 1], steps));
        lemma_trimmed_ends(ls.last());
        lemma_join_last(ls, "\n"@);
        lemma_trim_nonblank(t, t.len() - 1);
        assert(trail_ws(t) == 0);
        assert(t.take(t.len() as int) =~= t);
    } else {
        assert(join(ls, "\n"@) =~= Seq::<char>::empty());
    }
}

/// A line ended by a newline, of a text with no newline whose last
/// character is not whitespace.
proof fn lemma_line_nl(x: Seq<char>)
    requires
        one_line(x),
        x.len() > 0,
        !is_ws(x.last()),
    ensures
        lines(x + seq!['\n']) == seq![x],
{
    lemma_find_no_nl(x);
    lemma_lines_one(x);
}

proof fn lemma_indent_one(l: Seq<char>)
    requires
        l.len() > 0,
        trim(l) == l,
        one_line(l),
    ensures
        indented_line("    "@, l) == "    "@ + l + seq!['\n'],
        lines(indented_line("    "@, l)) == seq!["    "@ + l],
{
    reveal_strlit("    ");
    lemma_trimmed_ends(l);
    lemma_unpadded(l);
    let x = "    "@ + l;
    assert(x.last() == l.last());
    assert forall|k: int| 0 <= k < x.len() implies x[k] != '\n' by {
        if k >= 4 {
            assert(x[k] == l[k - 4]);
        }
    }
    lemma_line_nl(x);
}

proof fn lemma_indented_lines(ls: Seq<Seq<char>>)
    requires
        forall|k: int|
            0 <= k < ls.len() ==> (#[trigger] ls[k]).len() > 0 && trim(ls[k]) == ls[k] && one_line(
                ls[k],
            ),
    ensures
        lines(indented_lines("    "@, ls)) == ind(ls),
        ls.len() == 0 ==> indented_lines("    "@, ls).len() == 0,
        ls.len() > 0 ==> indented_lines("    "@, ls).len() > 0 && indented_lines("    "@, ls).last()
            == '\n',
    decreases ls.len(),
{
    if ls.len() == 0 {
        assert(lines(Seq::<char>::empty()) =~= Seq::<Seq<char>>::empty());
        assert(ind(ls) =~= Seq::<Seq<char>>::empty());
    } else {
        let d = ls.drop_last();
        assert forall|k: int| 0 <= k < d.len() implies (#[trigger] d[k]).len() > 0 && trim(d[k])
            == d[k] && one_line(d[k]) by {
            assert(d[k] == ls[k]);
        }
        lemma_indented_lines(d);
        let l = ls.last();
        assert(ls[ls.len() - 1] == l);
        lemma_indent_one(l);
        let a = indented_lines("    "@, d);
        let b = indented_line("    "@, l);
        if d.len() > 0 {
            lemma_lines_append(a, b);
        } else {
            assert(a + b =~= b);
            assert(lines(a) =~= Seq::<Seq<char>>::empty());
        }
        assert(ind(ls) =~= ind(d) + seq!["    "@ + l]);
        assert(lines(a + b) =~= lines(a) + lines(b));
    }
}

proof fn lemma_indented_text(t: Seq<char>, steps: bool)
    requires
        g_text_ok(t, steps),
    ensures
        lines(indented("    "@, t)) == ind(lines(t)),
        lines(t).len() == 0 ==> indented("    "@, t).len() == 0,
        lines(t).len() > 0 ==> indented("    "@, t).len() > 0 && indented("    "@, t).last()
            == '\n',
{
    let ls = lines(t);
    assert forall|k: int| 0 <= k < ls.len() implies (#[trigger] ls[k]).len() > 0 && trim(ls[k])
        == ls[k] && one_line(ls[k]) by {
        assert(g_line_ok(ls[k], steps));
    }
    lemma_indented_lines(ls);
}


#[verifier::spinoff_prover]
proof fn lemma_scenario_lines(si: int, sc: ScenarioV)
    requires
        g_name_ok(sc.0),
        g_text_ok(sc.1, true),
    ensures
        lines(scenario_text(si, sc)) == scen_lines(si, sc),
        scenario_text(si, sc).len() > 0,
        scenario_text(si, sc).last() == '\n',
{
    reveal_strlit("  Scenario: ");
    lemma_text_ends(sc.1, true);
    lemma_indented_text(sc.1, true);
    lemma_trimmed_ends(sc.0);
    let e = Seq::<char>::empty();
    let nl = seq!['\n'];
    let p0: Seq<char> = if si > 0 {
        nl
    } else {
        e
    };
    let h = "  Scenario: "@ + sc.0;
    let body = indented("    "@, sc.1);
    assert(scenario_text(si, sc) =~= p0 + ((h + nl) + body));
    assert(h.last() == sc.0.last());
    assert forall|k: int| 0 <= k < h.len() implies h[k] != '\n' by {
        if k >= 12 {
            assert(h[k] == sc.0[k - 12]);
        }
    }
    lemma_line_nl(h);
    assert((h + nl).last() == '\n');
    lemma_lines_append(h + nl, body);
    if si > 0 {
        lemma_find_no_nl(e);
        lemma_lines_one(e);
        assert(e + nl =~= nl);
        lemma_lines_append(p0, (h + nl) + body);
    } else {
        assert(p0 + ((h + nl) + body) =~= (h + nl) + body);
    }
    assert(lines(scenario_text(si, sc)) =~= scen_lines(si, sc));
    if lines(sc.1).len() > 0 {
        assert((h + nl + body).last() == body.last());
    } else {
        assert(body.len() == 0);
        assert((h + nl) + body =~= h + nl);
    }
    assert(scenario_text(si, sc).last() == ((h + nl) + body).last());
}

#[verifier::spinoff_prover]
proof fn lemma_scenarios_lines(scs: Seq<ScenarioV>)
    requires
        forall|k: int| 0 <= k < scs.len() ==> scen_ok(#[trigger] scs[k]),
    ensures
        lines(scenarios_text(scs)) == scens_lines(scs),
        scs.len() == 0 ==> scenarios_text(scs).len() == 0,
        scs.len() > 0 ==> scenarios_text(scs).len() > 0 && scenarios_text(scs).last() == '\n',
    decreases scs.len(),
{
    if scs.len() == 0 {
        assert(lines(Seq::<char>::empty()) =~= Seq::<Seq<char>>::empty());
    } else {
        let d = scs.drop_last();
        assert forall|k: int| 0 <= k < d.len() implies scen_ok(#[trigger] d[k]) by {
            assert(d[k] == scs[k]);
        }
        lemma_scenarios_lines(d);
        let n = scs.len() - 1;
        assert(scs[n] == scs.last());
        assert(scen_ok(scs[n]));
        lemma_scenario_lines(n, scs.last());
        let a = scenarios_text(d);
        let b = scenario_text(n, scs.last());
        if d.len() > 0 {
            lemma_lines_append(a, b);
        } else {
            assert(a + b =~= b);
            assert(lines(a) =~= Seq::<Seq<char>>::empty());
            assert(scens_lines(d) =~= Seq::<Seq<char>>::empty());
        }
        assert(lines(a + b) =~= lines(a) + lines(b));
        assert((a + b).last() == b.last());
    }
}

#[verifier::spinoff_prover]
proof fn lemma_background_lines(bg: Seq<char>)
    requires
        g_text_ok(bg, false),
    ensures
        lines(background_text(bg)) == bg_lines(bg),
        lines(bg).len() == 0 ==> background_text(bg).len() == 0,
        lines(bg).len() > 0 ==> background_text(bg).len() > 0 && background_text(bg).last() == '\n',
{
    reveal_strlit("  Background:\n");
    reveal_strlit("  Background:");
    lemma_text_ends(bg, false);
    lemma_indented_text(bg, false);
    let nl = seq!['\n'];
    let e = Seq::<char>::empty();
    if lines(bg).len() > 0 {
        let h = "  Background:"@;
        let body = indented("    "@, bg);
        assert("  Background:\n"@ =~= h + nl);
        assert(background_text(bg) =~= (h + nl) + (body + nl));
        lemma_find_no_nl(h);
        lemma_lines_one(h);
        lemma_find_no_nl(e);
        lemma_lines_one(e);
        assert(e + nl =~= nl);
        lemma_lines_append(body, nl);
        lemma_lines_append(h + nl, body + nl);
        assert(lines(background_text(bg)) =~= bg_lines(bg));
    } else {
        assert(trim(bg).len() == 0) by {
            assert(bg.len() == 0);
            assert(trim(bg) =~= e) by {
                assert(trim_start(bg) =~= e);
            }
        }
        assert(background_text(bg) =~= e);
        assert(lines(e) =~= Seq::<Seq<char>>::empty());
    }
}

#[verifier::spinoff_prover]
proof fn lemma_feature_lines(fi: int, f: FeatureV)
    requires
        feature_ok(f),
    ensures
        lines(feature_text(fi, f)) == feat_lines(fi, f),
        feature_text(fi, f).len() > 0,
        feature_text(fi, f).last() == '\n',
{
    reveal_strlit("\n\n");
    reveal_strlit("Feature: ");
    let e = Seq::<char>::empty();
    let nl = seq!['\n'];
    lemma_trimmed_ends(f.0);
    let h = "Feature: "@ + f.0;
    let p0: Seq<char> = if fi > 0 {
        nl + nl
    } else {
        e
    };
    let bg = background_text(f.1);
    let sc = scenarios_text(f.2);
    lemma_background_lines(f.1);
    lemma_scenarios_lines(f.2);
    assert(feature_text(fi, f) =~= p0 + ((h + nl) + (nl + (bg + sc))));
    assert(h.last() == f.0.last());
    assert forall|k: int| 0 <= k < h.len() implies h[k] != '\n' by {
        if k >= 9 {
            assert(h[k] == f.0[k - 9]);
        }
    }
    lemma_line_nl(h);
    lemma_find_no_nl(e);
    lemma_lines_one(e);
    assert(e + nl =~= nl);
    assert(lines(nl) == seq![e]);
    if lines(f.1).len() > 0 {
        lemma_lines_append(bg, sc);
    } else {
        assert(bg + sc =~= sc);
        assert(lines(bg) =~= Seq::<Seq<char>>::empty());
    }
    lemma_lines_append(nl, bg + sc);
    lemma_lines_append(h + nl, nl + (bg + sc));
    if fi > 0 {
        lemma_lines_append(nl, nl);
        lemma_lines_append(p0, (h + nl) + (nl + (bg + sc)));
    } else {
        assert(p0 + ((h + nl) + (nl + (bg + sc))) =~= (h + nl) + (nl + (bg + sc)));
    }
    assert(lines(feature_text(fi, f)) =~= feat_lines(fi, f));
    assert((bg + sc).last() == sc.last());
    assert(feature_text(fi, f).last() == sc.last());
}

proof fn lemma_features_lines(fs: Seq<FeatureV>)
    requires
        forall|k: int| 0 <= k < fs.len() ==> feature_ok(#[trigger] fs[k]),
    ensures
        lines(features_text(fs)) == feats_lines(fs),
        fs.len() > 0 ==> features_text(fs).len() > 0 && features_text(fs).last() == '\n',
    decreases fs.len(),
{
    if fs.len() == 0 {
        assert(lines(Seq::<char>::empty()) =~= Seq::<Seq<char>>::empty());
    } else {
        let d = fs.drop_last();
        assert forall|k: int| 0 <= k < d.len() implies feature_ok(#[trigger] d[k]) by {
            assert(d[k] == fs[k]);
        }
        lemma_features_lines(d);
        let n = fs.len() - 1;
        assert(fs[n] == fs.last());
        lemma_feature_lines(n, fs.last());
        let a = features_text(d);
        let b = feature_text(n, fs.last());
        if d.len() > 0 {
            lemma_lines_append(a, b);
        } else {
            assert(a + b =~= b);
            assert(lines(a) =~= Seq::<Seq<char>>::empty());
            assert(feats_lines(d) =~= Seq::<Seq<char>>::empty());
        }
        assert(lines(a + b) =~= lines(a) + lines(b));
        assert((a + b).last() == b.last());
    }
}


/// `pad`, all spaces, before a text that neither begins nor ends with
/// whitespace, trims away.
proof fn lemma_trim_padded(pad: Seq<char>, y: Seq<char>)
    requires
        forall|k: int| 0 <= k < pad.len() ==> pad[k] == ' ',
        y.len() > 0,
        !is_ws(y[0]),
        !is_ws(y.last()),
    ensures
        trim(pad + y) == y,
        trim_end(pad + y) == pad + y,
        lead_ws(pad + y) == pad.len(),
    decreases pad.len(),
{
    let x = pad + y;
    assert(x.last() == y.last());
    assert(trail_ws(x) == 0);
    assert(x.take(x.len() as int) =~= x);
    if pad.len() == 0 {
        assert(x =~= y);
        lemma_unpadded(y);
    } else {
        let p2 = pad.drop_first();
        assert forall|k: int| 0 <= k < p2.len() implies p2[k] == ' ' by {
            assert(p2[k] == pad[k + 1]);
        }
        lemma_trim_padded(p2, y);
        assert(x.drop_first() =~= p2 + y);
        assert(x[0] == ' ');
        assert(is_ws(' '));
        assert(lead_ws(x) == 1 + lead_ws(p2 + y));
        lemma_unpadded(y);
        assert(x.skip(pad.len() as int) =~= y);
    }
}

/// The first `k` lines of `r` are blank, and then `r` ends or a section
/// head comes.
pub open spec fn blanks_then_head(r: Seq<Seq<char>>, k: int) -> bool {
    &&& 0 <= k <= r.len()
    &&& forall|m: int| 0 <= m < k ==> #[trigger] r[m] == Seq::<char>::empty()
    &&& (k == r.len() || is_section_head(trim(r[k])))
}

/// A line `collect` reads past.
pub open spec fn collectible(l: Seq<char>, tags: bool) -> bool {
    trim(l).len() == 0 || (!is_section_head(trim(l)) && !(tags && has_prefix(trim(l), "@"@)))
}

/// The trimmed non-blank lines of `ls`.
pub open spec fn collected(ls: Seq<Seq<char>>) -> Seq<Seq<char>>
    decreases ls.len(),
{
    if ls.len() == 0 {
        Seq::empty()
    } else if trim(ls[0]).len() == 0 {
        collected(ls.drop_first())
    } else {
        seq![trim(ls[0])] + collected(ls.drop_first())
    }
}

proof fn lemma_collect_region(ls: Seq<Seq<char>>, i: int, j: int, tags: bool)
    requires
        0 <= i <= j <= ls.len(),
        forall|m: int| i <= m < j ==> collectible(#[trigger] ls[m], tags),
        j == ls.len() || is_section_head(trim(ls[j])),
    ensures
        collect(ls, i, tags) == (collected(ls.subrange(i, j)), j),
    decreases j - i,
{
    if i == j {
        assert(ls.subrange(i, j) =~= Seq::<Seq<char>>::empty());
    } else {
        assert(collectible(ls[i], tags));
        lemma_collect_region(ls, i + 1, j, tags);
        assert(ls.subrange(i, j).drop_first() =~= ls.subrange(i + 1, j));
        assert(ls.subrange(i, j)[0] == ls[i]);
        if trim(ls[i]).len() == 0 {
            assert(!is_section_head(trim(ls[i]))) by {
                reveal_strlit("Scenario:");
                reveal_strlit("Scenario Outline:");
                reveal_strlit("Feature:");
            }
        }
    }
}

proof fn lemma_collected_concat(a: Seq<Seq<char>>, b: Seq<Seq<char>>)
    ensures
        collected(a + b) == collected(a) + collected(b),
    decreases a.len(),
{
    if a.len() == 0 {
        assert(a + b =~= b);
    } else {
        assert((a + b).drop_first() =~= a.drop_first() + b);
        assert((a + b)[0] == a[0]);
        lemma_collected_concat(a.drop_first(), b);
    }
}

proof fn lemma_collected_ind(ls: Seq<Seq<char>>)
    requires
        forall|k: int|
            0 <= k < ls.len() ==> (#[trigger] ls[k]).len() > 0 && trim(ls[k]) == ls[k],
    ensures
        collected(ind(ls)) == ls,
        forall|k: int| 0 <= k < ls.len() ==> trim(#[trigger] ind(ls)[k]) == ls[k],
    decreases ls.len(),
{
    reveal_strlit("    ");
    assert forall|k: int| 0 <= k < ls.len() implies trim(#[trigger] ind(ls)[k]) == ls[k] by {
        lemma_trimmed_ends(ls[k]);
        lemma_trim_padded("    "@, ls[k]);
    }
    if ls.len() > 0 {
        let d = ls.drop_first();
        assert forall|k: int| 0 <= k < d.len() implies (#[trigger] d[k]).len() > 0 && trim(d[k])
            == d[k] by {
            assert(d[k] == ls[k + 1]);
        }
        lemma_collected_ind(d);
        assert(ind(ls).drop_first() =~= ind(d));
        assert(trim(ind(ls)[0]) == ls[0]);
        assert(ls =~= seq![ls[0]] + d);
    } else {
        assert(ind(ls) =~= Seq::<Seq<char>>::empty());
    }
}

proof fn lemma_collected_blanks(ls: Seq<Seq<char>>)
    requires
        forall|k: int| 0 <= k < ls.len() ==> #[trigger] ls[k] == Seq::<char>::empty(),
    ensures
        collected(ls) == Seq::<Seq<char>>::empty(),
    decreases ls.len(),
{
    if ls.len() > 0 {
        assert(ls[0] == Seq::<char>::empty());
        assert(trim(Seq::<char>::empty()) =~= Seq::<char>::empty());
        let d = ls.drop_first();
        assert forall|k: int| 0 <= k < d.len() implies #[trigger] d[k] == Seq::<char>::empty() by {
            assert(d[k] == ls[k + 1]);
        }
        lemma_collected_blanks(d);
    }
}

proof fn lemma_collect_shift(p: Seq<Seq<char>>, q: Seq<Seq<char>>, j: int, tags: bool)
    requires
        0 <= j,
    ensures
        collect(p + q, p.len() + j, tags) == (collect(q, j, tags).0, collect(q, j, tags).1 + p.len()),
    decreases q.len() - j,
{
    if j < q.len() {
        assert((p + q)[p.len() + j] == q[j]);
        lemma_collect_shift(p, q, j + 1, tags);
    }
}

proof fn lemma_scan_shift(
    p: Seq<Seq<char>>,
    q: Seq<Seq<char>>,
    j: int,
    done: Seq<FeatureV>,
    cur: Option<FeatureV>,
)
    requires
        0 <= j,
    ensures
        gherkin_scan(p + q, p.len() + j, done, cur) == gherkin_scan(q, j, done, cur),
    decreases q.len() - j,
{
    if j < q.len() {
        let ls = p + q;
        assert(ls[p.len() + j] == q[j]);
        let t = trim(trim_end(q[j]));
        if let Some(rest) = strip_prefix(t, "Feature:"@) {
            let done2 = match cur {
                Some(f) => done.push(f),
                None => done,
            };
            lemma_scan_shift(p, q, j + 1, done2, Some((trim(rest), Seq::empty(), Seq::empty())));
        } else if cur is None {
            lemma_scan_shift(p, q, j + 1, done, cur);
        } else if has_prefix(t, "Background:"@) {
            lemma_collect(q, j + 1, false);
            lemma_collect_shift(p, q, j + 1, false);
            let c = collect(q, j + 1, false);
            let f = cur->0;
            lemma_scan_shift(p, q, c.1, done, Some((f.0, join(c.0, "\n"@), f.2)));
        } else if has_prefix(t, "Scenario:"@) || has_prefix(t, "Scenario Outline:"@) {
            lemma_collect(q, j + 1, true);
            lemma_collect_shift(p, q, j + 1, true);
            let c = collect(q, j + 1, true);
            let f = cur->0;
            let sc = new_scenario(scenario_name(t), f.2.len() + 1, c.0);
            lemma_scan_shift(p, q, c.1, done, Some((f.0, f.1, f.2.push(sc))));
        } else {
            lemma_scan_shift(p, q, j + 1, done, cur);
        }
    }
}

/// Blank lines are read past once a feature is open.
proof fn lemma_skip_blanks(ls: Seq<Seq<char>>, i: int, k: int, done: Seq<FeatureV>, cur: Option<FeatureV>)
    requires
        0 <= i <= k <= ls.len(),
        cur is Some,
        forall|m: int| i <= m < k ==> #[trigger] ls[m] == Seq::<char>::empty(),
    ensures
        gherkin_scan(ls, i, done, cur) == gherkin_scan(ls, k, done, cur),
    decreases k - i,
{
    if i < k {
        let e = Seq::<char>::empty();
        assert(ls[i] == e);
        assert(trim_end(e) =~= e);
        assert(trim(e) =~= e);
        assert(strip_prefix(e, "Feature:"@) is None) by {
            reveal_strlit("Feature:");
        }
        assert(!has_prefix(e, "Background:"@)) by {
            reveal_strlit("Background:");
        }
        assert(!has_prefix(e, "Scenario:"@)) by {
            reveal_strlit("Scenario:");
        }
        assert(!has_prefix(e, "Scenario Outline:"@)) by {
            reveal_strlit("Scenario Outline:");
        }
        lemma_skip_blanks(ls, i + 1, k, done, cur);
    }
}


/// The region `collect` reads for a block of indented lines followed by
/// blank lines.
proof fn lemma_collect_block(
    ls: Seq<Seq<char>>,
    i: int,
    body: Seq<Seq<char>>,
    nb: int,
    tags: bool,
)
    requires
        0 <= i,
        0 <= nb,
        i + body.len() + nb <= ls.len(),
        forall|k: int| 0 <= k < body.len() ==> g_line_ok(#[trigger] body[k], tags),
        ls.subrange(i, i + body.len()) == ind(body),
        forall|m: int| i + body.len() <= m < i + body.len() + nb ==> #[trigger] ls[m]
            == Seq::<char>::empty(),
        i + body.len() + nb == ls.len() || is_section_head(trim(ls[i + body.len() + nb])),
    ensures
        collect(ls, i, tags) == (body, i + body.len() + nb),
{
    let j = i + body.len() + nb;
    assert forall|k: int| 0 <= k < body.len() implies (#[trigger] body[k]).len() > 0 && trim(body[k])
        == body[k] by {
        assert(g_line_ok(body[k], tags));
    }
    lemma_collected_ind(body);
    assert forall|m: int| i <= m < j implies collectible(#[trigger] ls[m], tags) by {
        if m < i + body.len() {
            assert(ls[m] == ls.subrange(i, i + body.len())[m - i]);
            assert(ls[m] == ind(body)[m - i]);
            assert(trim(ind(body)[m - i]) == body[m - i]);
            assert(g_line_ok(body[m - i], tags));
        } else {
            assert(ls[m] == Seq::<char>::empty());
            assert(trim(Seq::<char>::empty()) =~= Seq::<char>::empty());
        }
    }
    lemma_collect_region(ls, i, j, tags);
    let blanks = ls.subrange(i + body.len(), j);
    assert(ls.subrange(i, j) =~= ind(body) + blanks);
    assert forall|k: int| 0 <= k < blanks.len() implies #[trigger] blanks[k] == Seq::<char>::empty() by {
        assert(blanks[k] == ls[i + body.len() + k]);
    }
    lemma_collected_blanks(blanks);
    lemma_collected_concat(ind(body), blanks);
    assert(collected(ind(body)) + collected(blanks) =~= body);
}

/// A head line: `pad` then `word` then a name; it trims to `word` and the
/// name.
proof fn lemma_head_line(pad: Seq<char>, word: Seq<char>, name: Seq<char>)
    requires
        forall|k: int| 0 <= k < pad.len() ==> pad[k] == ' ',
        word.len() > 0,
        !is_ws(word[0]),
        g_name_ok(name),
    ensures
        trim(trim_end(pad + (word + name))) == word + name,
{
    lemma_trimmed_ends(name);
    let y = word + name;
    assert(y[0] == word[0]);
    assert(y.last() == name.last());
    lemma_trim_padded(pad, y);
}

/// Reading one scenario written after others of a feature.
#[verifier::spinoff_prover]
proof fn lemma_scan_scenario(
    si: int,
    sc: ScenarioV,
    r: Seq<Seq<char>>,
    k: int,
    done: Seq<FeatureV>,
    name: Seq<char>,
    bg: Seq<char>,
    prev: Seq<ScenarioV>,
)
    requires
        scen_ok(sc),
        blanks_then_head(r, k),
    ensures
        gherkin_scan(scen_lines(si, sc) + r, 0, done, Some((name, bg, prev))) == gherkin_scan(
            r,
            k,
            done,
            Some((name, bg, prev.push(sc))),
        ),
{
    reveal_strlit("  Scenario: ");
    reveal_strlit("  ");
    reveal_strlit("Scenario: ");
    reveal_strlit("Scenario:");
    reveal_strlit("Feature:");
    reveal_strlit("Background:");
    reveal_strlit("\n");
    let e = Seq::<char>::empty();
    let sl = scen_lines(si, sc);
    let q = sl + r;
    let cur = Some((name, bg, prev));
    let h: int = if si > 0 {
        1
    } else {
        0
    };
    if si > 0 {
        assert(q[0] == e);
        lemma_skip_blanks(q, 0, 1, done, cur);
    }
    let line = "  Scenario: "@ + sc.0;
    assert(q[h] == line);
    assert("  Scenario: "@ =~= "  "@ + "Scenario: "@);
    assert(line =~= "  "@ + ("Scenario: "@ + sc.0));
    assert(("Scenario: "@)[0] == 'S');
    lemma_head_line("  "@, "Scenario: "@, sc.0);
    let t = "Scenario: "@ + sc.0;
    assert(trim(trim_end(q[h])) == t);
    assert(!has_prefix(t, "Feature:"@)) by {
        assert(t.take(8)[0] == 'S');
    }
    assert(strip_prefix(t, "Feature:"@) is None);
    assert(!has_prefix(t, "Background:"@)) by {
        if t.len() >= 11 {
            assert(t.take(11)[0] == 'S');
        }
    }
    assert(has_prefix(t, "Scenario:"@)) by {
        assert(t.take(9) =~= "Scenario:"@);
    }
    let body = lines(sc.1);
    assert(sl =~= (if si > 0 { seq![e] } else { Seq::<Seq<char>>::empty() }) + seq![line] + ind(body));
    assert(q.subrange(h + 1, h + 1 + body.len()) =~= ind(body));
    assert forall|m: int| h + 1 + body.len() <= m < h + 1 + body.len() + k implies #[trigger] q[m]
        == e by {
        assert(q[m] == r[m - (h + 1 + body.len())]);
    }
    if h + 1 + body.len() + k < q.len() {
        assert(q[h + 1 + body.len() + k] == r[k]);
    }
    assert forall|kk: int| 0 <= kk < body.len() implies g_line_ok(#[trigger] body[kk], true) by {
    }
    lemma_collect_block(q, h + 1, body, k, true);
    // The name the scenario gets.
    assert(strip_prefix(t, "Scenario:"@) == Some(seq![' '] + sc.0)) by {
        assert(t.skip(9) =~= seq![' '] + sc.0);
    }
    lemma_trimmed_ends(sc.0);
    lemma_trim_padded(seq![' '], sc.0);
    assert(scenario_name(t) == sc.0);
    assert(join(body, "\n"@) == sc.1);
    assert(new_scenario(sc.0, prev.len() + 1, body) == sc);
    lemma_scan_shift(sl, r, k, done, Some((name, bg, prev.push(sc))));
    assert(sl.len() == h + 1 + body.len());
}


/// The lines of the scenarios from the `m`-th on.
pub open spec fn scens_from(scs: Seq<ScenarioV>, m: int) -> Seq<Seq<char>>
    decreases scs.len() - m,
{
    if m < 0 || m >= scs.len() {
        Seq::empty()
    } else {
        scen_lines(m, scs[m]) + scens_from(scs, m + 1)
    }
}

proof fn lemma_scens_split(scs: Seq<ScenarioV>, m: int)
    requires
        0 <= m <= scs.len(),
    ensures
        scens_lines(scs.take(m)) + scens_from(scs, m) == scens_lines(scs),
    decreases scs.len() - m,
{
    if m == scs.len() {
        assert(scs.take(m) =~= scs);
        assert(scens_lines(scs.take(m)) + Seq::<Seq<char>>::empty() =~= scens_lines(scs));
    } else {
        lemma_scens_split(scs, m + 1);
        let t = scs.take(m + 1);
        assert(t.drop_last() =~= scs.take(m));
        assert(t.last() == scs[m]);
        assert(scens_lines(t) == scens_lines(scs.take(m)) + scen_lines(m, scs[m]));
        assert(scens_lines(scs.take(m)) + scens_from(scs, m) =~= scens_lines(t) + scens_from(
            scs,
            m + 1,
        ));
    }
}

#[verifier::spinoff_prover]
proof fn lemma_scan_scenarios(
    scs: Seq<ScenarioV>,
    m: int,
    r: Seq<Seq<char>>,
    k: int,
    done: Seq<FeatureV>,
    name: Seq<char>,
    bg: Seq<char>,
)
    requires
        0 <= m < scs.len(),
        forall|j: int| 0 <= j < scs.len() ==> scen_ok(#[trigger] scs[j]),
        blanks_then_head(r, k),
    ensures
        gherkin_scan(scens_from(scs, m) + r, 0, done, Some((name, bg, scs.take(m)))) == gherkin_scan(
            r,
            k,
            done,
            Some((name, bg, scs)),
        ),
    decreases scs.len() - m,
{
    reveal_strlit("  Scenario: ");
    reveal_strlit("  ");
    reveal_strlit("Scenario: ");
    reveal_strlit("Scenario:");
    let e = Seq::<char>::empty();
    let rest = scens_from(scs, m + 1) + r;
    assert(scens_from(scs, m) + r =~= scen_lines(m, scs[m]) + rest);
    assert(scs.take(m).push(scs[m]) =~= scs.take(m + 1));
    assert(scen_ok(scs[m]));
    if m + 1 < scs.len() {
        let nxt = scs[m + 1];
        assert(scen_ok(nxt));
        assert(scens_from(scs, m + 1) =~= scen_lines(m + 1, nxt) + scens_from(scs, m + 2));
        assert(rest[0] == e);
        let line = "  Scenario: "@ + nxt.0;
        assert(rest[1] == line);
        assert("  Scenario: "@ =~= "  "@ + "Scenario: "@);
        assert(line =~= "  "@ + ("Scenario: "@ + nxt.0));
        assert(("Scenario: "@)[0] == 'S');
        lemma_head_line("  "@, "Scenario: "@, nxt.0);
        let t = "Scenario: "@ + nxt.0;
        assert(trim(rest[1]) == t) by {
            lemma_trimmed_ends(nxt.0);
            assert(t.last() == nxt.0.last());
            assert(trail_ws(line) == 0);
            assert(line.take(line.len() as int) =~= line);
        }
        assert(has_prefix(t, "Scenario:"@)) by {
            assert(t.take(9) =~= "Scenario:"@);
        }
        assert(blanks_then_head(rest, 1));
        lemma_scan_scenario(m, scs[m], rest, 1, done, name, bg, scs.take(m));
        lemma_skip_blanks(rest, 0, 1, done, Some((name, bg, scs.take(m + 1))));
        lemma_scan_scenarios(scs, m + 1, r, k, done, name, bg);
    } else {
        assert(scens_from(scs, m + 1) =~= Seq::<Seq<char>>::empty());
        assert(rest =~= r);
        assert(scs.take(m + 1) =~= scs);
        lemma_scan_scenario(m, scs[m], r, k, done, name, bg, scs.take(m));
    }
}


/// Reading the background of a feature (if any) up to its first
/// scenario.
#[verifier::spinoff_prover]
#[verifier::rlimit(60)]
proof fn lemma_scan_body(f: FeatureV, head: Seq<Seq<char>>, rest: Seq<Seq<char>>, done: Seq<FeatureV>)
    requires
        feature_ok(f),
        rest.len() > 0,
        rest[0] == "  Scenario: "@ + f.2[0].0,
    ensures
        gherkin_scan(
            head + (bg_lines(f.1) + rest),
            head.len() as int,
            done,
            Some((f.0, Seq::<char>::empty(), Seq::<ScenarioV>::empty())),
        ) == gherkin_scan(rest, 0, done, Some((f.0, f.1, Seq::<ScenarioV>::empty()))),
{
    reveal_strlit("Feature:");
    reveal_strlit("  Background:");
    reveal_strlit("  ");
    reveal_strlit("Background:");
    reveal_strlit("  Scenario: ");
    reveal_strlit("Scenario: ");
    reveal_strlit("Scenario:");
    reveal_strlit("\n");
    let e = Seq::<char>::empty();
    let bgl = bg_lines(f.1);
    let q = head + (bgl + rest);
    let p = head.len() as int;
    let opened = Some((f.0, e, Seq::<ScenarioV>::empty()));
    let s0 = f.2[0];
    assert(scen_ok(s0));
    let sline = "  Scenario: "@ + s0.0;
    lemma_text_ends(f.1, false);
    if lines(f.1).len() > 0 {
        let bline = "  Background:"@;
        assert(q[p] == bline);
        assert(bline =~= "  "@ + "Background:"@);
        lemma_unpadded("Background:"@);
        lemma_trim_padded("  "@, "Background:"@);
        let tb = "Background:"@;
        assert(trim(trim_end(q[p])) == tb);
        assert(!has_prefix(tb, "Feature:"@)) by {
            assert(tb.take(8)[0] == 'B');
        }
        assert(has_prefix(tb, "Background:"@)) by {
            assert(tb.take(11) =~= tb);
        }
        let body = lines(f.1);
        let i0 = p + 1;
        assert(bgl =~= seq![bline] + ind(body) + seq![e]);
        assert(q.subrange(i0, i0 + body.len()) =~= ind(body));
        assert(q[i0 + body.len()] == e);
        let j = i0 + body.len() + 1;
        assert(q[j] == sline);
        assert(sline =~= "  "@ + ("Scenario: "@ + s0.0));
        assert(("Scenario: "@)[0] == 'S');
        lemma_head_line("  "@, "Scenario: "@, s0.0);
        let ts = "Scenario: "@ + s0.0;
        assert(trim(q[j]) == ts) by {
            lemma_trimmed_ends(s0.0);
            assert(sline.last() == s0.0.last());
            assert(trail_ws(sline) == 0);
            assert(sline.take(sline.len() as int) =~= sline);
        }
        assert(has_prefix(ts, "Scenario:"@)) by {
            assert(ts.take(9) =~= "Scenario:"@);
        }
        assert forall|m: int| i0 + body.len() <= m < i0 + body.len() + 1 implies #[trigger] q[m]
            == e by {
        }
        assert forall|kk: int| 0 <= kk < body.len() implies g_line_ok(#[trigger] body[kk], false) by {
        }
        lemma_collect_block(q, i0, body, 1, false);
        assert(join(body, "\n"@) == f.1);
        let withbg = Some((f.0, f.1, Seq::<ScenarioV>::empty()));
        assert(gherkin_scan(q, p, done, opened) == gherkin_scan(q, j, done, withbg));
        assert(j == head.len() + bgl.len());
        lemma_scan_shift(head + bgl, rest, 0, done, withbg);
        assert(head + bgl + rest =~= q);
    } else {
        assert(f.1.len() == 0);
        assert(f.1 =~= e);
        assert(bgl =~= Seq::<Seq<char>>::empty());
        lemma_scan_shift(head, rest, 0, done, opened);
        assert(head + (bgl + rest) =~= head + rest);
    }
}

/// Reading one feature written after the others.
#[verifier::spinoff_prover]
#[verifier::rlimit(90)]
proof fn lemma_scan_feature(
    fi: int,
    f: FeatureV,
    r: Seq<Seq<char>>,
    k: int,
    done: Seq<FeatureV>,
    cur: Option<FeatureV>,
)
    requires
        feature_ok(f),
        blanks_then_head(r, k),
        fi == 0 ==> cur is None,
        fi > 0 ==> cur is Some,
    ensures
        gherkin_scan(feat_lines(fi, f) + r, 0, done, cur) == gherkin_scan(
            r,
            k,
            match cur {
                Some(c) => done.push(c),
                None => done,
            },
            Some(f),
        ),
{
    reveal_strlit("Feature: ");
    reveal_strlit("Feature:");
    reveal_strlit("  Background:");
    reveal_strlit("  ");
    reveal_strlit("Background:");
    reveal_strlit("  Scenario: ");
    reveal_strlit("Scenario: ");
    reveal_strlit("Scenario:");
    reveal_strlit("\n");
    let e = Seq::<char>::empty();
    let done2 = match cur {
        Some(c) => done.push(c),
        None => done,
    };
    let fl = feat_lines(fi, f);
    let q = fl + r;
    let p: int = if fi > 0 {
        2
    } else {
        0
    };
    let pre: Seq<Seq<char>> = if fi > 0 {
        seq![e, e]
    } else {
        Seq::empty()
    };
    let fline = "Feature: "@ + f.0;
    let head = pre + seq![fline, e];
    let bgl = bg_lines(f.1);
    let scl = scens_lines(f.2);
    assert(fl =~= head + bgl + scl);
    assert(q =~= head + (bgl + (scl + r)));
    if fi > 0 {
        assert(q[0] == e);
        assert(q[1] == e);
        lemma_skip_blanks(q, 0, 2, done, cur);
    }
    // The feature line.
    assert(q[p] == fline);
    lemma_head_line(e, "Feature: "@, f.0);
    assert(e + fline =~= fline);
    assert(("Feature: "@)[0] == 'F');
    let t = fline;
    assert(trim(trim_end(q[p])) == t);
    assert(has_prefix(t, "Feature:"@)) by {
        assert(t.take(8) =~= "Feature:"@);
    }
    assert(t.skip(8) =~= seq![' '] + f.0);
    lemma_trimmed_ends(f.0);
    lemma_trim_padded(seq![' '], f.0);
    let opened = Some((f.0, e, Seq::<ScenarioV>::empty()));
    assert(gherkin_scan(q, p, done, cur) == gherkin_scan(q, p + 1, done2, opened));
    assert(q[p + 1] == e);
    lemma_skip_blanks(q, p + 1, p + 2, done2, opened);
    assert(head.len() == p + 2);
    // The scenarios, after the background if there is one.
    let scs = f.2;
    let s0 = scs[0];
    assert(scen_ok(s0));
    lemma_scens_split(scs, 0);
    assert(scs.take(0) =~= Seq::<ScenarioV>::empty());
    assert(scens_lines(Seq::<ScenarioV>::empty()) =~= Seq::<Seq<char>>::empty());
    assert(scl =~= scens_from(scs, 0));
    assert(scens_from(scs, 0) =~= scen_lines(0, s0) + scens_from(scs, 1));
    let sline = "  Scenario: "@ + s0.0;
    assert(scl[0] == sline);
    assert((scl + r)[0] == sline);
    lemma_scan_body(f, head, scl + r, done2);
    assert(head + (bgl + (scl + r)) =~= q);
    assert forall|j: int| 0 <= j < scs.len() implies scen_ok(#[trigger] scs[j]) by {
    }
    lemma_scan_scenarios(scs, 0, r, k, done2, f.0, f.1);
    assert(scens_from(scs, 0) + r =~= scl + r);
    assert(scs.take(0) =~= Seq::<ScenarioV>::empty());
    assert(scs.take(0) == Seq::<ScenarioV>::empty());
    assert(f == (f.0, f.1, scs));
}


/// The lines of the features from the `m`-th on.
pub open spec fn feats_from(fs: Seq<FeatureV>, m: int) -> Seq<Seq<char>>
    decreases fs.len() - m,
{
    if m < 0 || m >= fs.len() {
        Seq::empty()
    } else {
        feat_lines(m, fs[m]) + feats_from(fs, m + 1)
    }
}

proof fn lemma_feats_split(fs: Seq<FeatureV>, m: int)
    requires
        0 <= m <= fs.len(),
    ensures
        feats_lines(fs.take(m)) + feats_from(fs, m) == feats_lines(fs),
    decreases fs.len() - m,
{
    if m == fs.len() {
        assert(fs.take(m) =~= fs);
        assert(feats_lines(fs.take(m)) + Seq::<Seq<char>>::empty() =~= feats_lines(fs));
    } else {
        lemma_feats_split(fs, m + 1);
        let t = fs.take(m + 1);
        assert(t.drop_last() =~= fs.take(m));
        assert(t.last() == fs[m]);
        assert(feats_lines(t) == feats_lines(fs.take(m)) + feat_lines(m, fs[m]));
        assert(feats_lines(fs.take(m)) + feats_from(fs, m) =~= feats_lines(t) + feats_from(
            fs,
            m + 1,
        ));
    }
}

#[verifier::spinoff_prover]
proof fn lemma_scan_features(fs: Seq<FeatureV>, m: int)
    requires
        0 <= m < fs.len(),
        forall|j: int| 0 <= j < fs.len() ==> feature_ok(#[trigger] fs[j]),
    ensures
        gherkin_scan(
            feats_from(fs, m),
            0,
            if m > 0 {
                fs.take(m - 1)
            } else {
                Seq::empty()
            },
            if m > 0 {
                Some(fs[m - 1])
            } else {
                None
            },
        ) == (fs.drop_last(), Some(fs.last())),
    decreases fs.len() - m,
{
    reveal_strlit("Feature: ");
    reveal_strlit("Feature:");
    let e = Seq::<char>::empty();
    let done: Seq<FeatureV> = if m > 0 {
        fs.take(m - 1)
    } else {
        Seq::empty()
    };
    let cur: Option<FeatureV> = if m > 0 {
        Some(fs[m - 1])
    } else {
        None
    };
    let r = feats_from(fs, m + 1);
    assert(feats_from(fs, m) =~= feat_lines(m, fs[m]) + r);
    assert(feature_ok(fs[m]));
    let done2 = match cur {
        Some(c) => done.push(c),
        None => done,
    };
    assert(done2 =~= fs.take(m));
    if m + 1 < fs.len() {
        let g = fs[m + 1];
        assert(feature_ok(g));
        assert(r =~= feat_lines(m + 1, g) + feats_from(fs, m + 2));
        assert(r[0] == e);
        assert(r[1] == e);
        let fline = "Feature: "@ + g.0;
        assert(r[2] == fline);
        lemma_head_line(e, "Feature: "@, g.0);
        assert(e + fline =~= fline);
        assert(("Feature: "@)[0] == 'F');
        assert(trim(r[2]) == fline) by {
            lemma_trimmed_ends(g.0);
            assert(fline.last() == g.0.last());
            assert(trail_ws(fline) == 0);
            assert(fline.take(fline.len() as int) =~= fline);
        }
        assert(has_prefix(fline, "Feature:"@)) by {
            assert(fline.take(8) =~= "Feature:"@);
        }
        assert(blanks_then_head(r, 2));
        lemma_scan_feature(m, fs[m], r, 2, done, cur);
        lemma_skip_blanks(r, 0, 2, fs.take(m), Some(fs[m]));
        lemma_scan_features(fs, m + 1);
    } else {
        assert(r =~= Seq::<Seq<char>>::empty());
        assert(blanks_then_head(r, 0));
        lemma_scan_feature(m, fs[m], r, 0, done, cur);
        assert(fs.take(m) =~= fs.drop_last());
        assert(fs[m] == fs.last());
    }
}

proof fn lemma_features_start(fs: Seq<FeatureV>)
    requires
        fs.len() > 0,
    ensures
        features_text(fs).len() > 0,
        features_text(fs)[0] == 'F',
    decreases fs.len(),
{
    reveal_strlit("Feature: ");
    let d = fs.drop_last();
    let b = feature_text(fs.len() - 1, fs.last());
    assert(feature_head(fs.len() - 1, fs.last().0).len() > 0);
    if d.len() > 0 {
        lemma_features_start(d);
        assert((features_text(d) + b)[0] == features_text(d)[0]);
    } else {
        assert(features_text(d) =~= Seq::<char>::empty());
        assert(features_text(d) + b =~= b);
        assert(feature_head(0, fs.last().0)[0] == 'F');
        assert(b[0] == feature_head(0, fs.last().0)[0]);
    }
}

/// What the Gherkin format writes of well-formed features reads back as
/// the same features.
pub proof fn lemma_gherkin_roundtrip(fs: Seq<FeatureV>)
    requires
        fs.len() > 0,
        forall|j: int| 0 <= j < fs.len() ==> feature_ok(#[trigger] fs[j]),
    ensures
        parse_features(features_text(fs)) == fs,
{
    let src = features_text(fs);
    lemma_features_lines(fs);
    lemma_features_start(fs);
    assert(!is_ws(src[0]));
    lemma_trim_nonblank(src, 0);
    lemma_feats_split(fs, 0);
    assert(fs.take(0) =~= Seq::<FeatureV>::empty());
    assert(feats_lines(Seq::<FeatureV>::empty()) =~= Seq::<Seq<char>>::empty());
    assert(lines(src) =~= feats_from(fs, 0));
    lemma_scan_features(fs, 0);
    let r = gherkin_scan(lines(src), 0, Seq::empty(), None);
    assert(r == (fs.drop_last(), Some(fs.last())));
    let all = fs.drop_last().push(fs.last());
    assert(all =~= fs);
    assert forall|j: int| 0 <= j < fs.len() implies normalize_feature(#[trigger] fs[j]) == fs[j] by {
        let f = fs[j];
        assert(feature_ok(f));
        lemma_trimmed_ends(f.0);
    }
    assert(fs.map_values(|f: FeatureV| normalize_feature(f)) =~= fs);
}


/// `t` ends with a newline right after a character that is not
/// whitespace.
pub open spec fn ends_line(t: Seq<char>) -> bool {
    t.len() >= 2 && t.last() == '\n' && !is_ws(t[t.len() - 2])
}

proof fn lemma_ends_line_concat(a: Seq<char>, b: Seq<char>)
    requires
        ends_line(b),
    ensures
        ends_line(a + b),
{
    assert((a + b).last() == b.last());
    assert((a + b)[(a + b).len() - 2] == b[b.len() - 2]);
}

proof fn lemma_indented_ends(ls: Seq<Seq<char>>)
    requires
        ls.len() > 0,
        forall|k: int|
            0 <= k < ls.len() ==> (#[trigger] ls[k]).len() > 0 && trim(ls[k]) == ls[k] && one_line(
                ls[k],
            ),
    ensures
        ends_line(indented_lines("    "@, ls)),
{
    reveal_strlit("    ");
    let l = ls.last();
    assert(ls[ls.len() - 1] == l);
    lemma_indent_one(l);
    lemma_trimmed_ends(l);
    let b = "    "@ + l + seq!['\n'];
    assert(b[b.len() - 2] == l.last());
    lemma_ends_line_concat(indented_lines("    "@, ls.drop_last()), b);
}

proof fn lemma_scenario_ends(si: int, sc: ScenarioV)
    requires
        scen_ok(sc),
    ensures
        ends_line(scenario_text(si, sc)),
{
    reveal_strlit("  Scenario: ");
    let e = Seq::<char>::empty();
    let nl = seq!['\n'];
    let p0: Seq<char> = if si > 0 {
        nl
    } else {
        e
    };
    let h = "  Scenario: "@ + sc.0;
    let body = indented("    "@, sc.1);
    lemma_text_ends(sc.1, true);
    lemma_trimmed_ends(sc.0);
    assert(g_name_ok(sc.0));
    assert(trim(sc.0) == sc.0);
    assert(trim_end(sc.1) == sc.1);
    assert(scenario_text(si, sc) =~= (p0 + (h + nl)) + body);
    if lines(sc.1).len() > 0 {
        let ls = lines(sc.1);
        assert forall|k: int| 0 <= k < ls.len() implies (#[trigger] ls[k]).len() > 0 && trim(ls[k])
            == ls[k] && one_line(ls[k]) by {
            assert(g_line_ok(ls[k], true));
        }
        lemma_indented_ends(ls);
        lemma_ends_line_concat(p0 + (h + nl), body);
    } else {
        lemma_indented_text(sc.1, true);
        assert(body.len() == 0);
        assert((p0 + (h + nl)) + body =~= p0 + (h + nl));
        assert((h + nl)[(h + nl).len() - 2] == sc.0.last());
        lemma_ends_line_concat(p0, h + nl);
    }
}

proof fn lemma_features_ends(fs: Seq<FeatureV>)
    requires
        fs.len() > 0,
        forall|j: int| 0 <= j < fs.len() ==> feature_ok(#[trigger] fs[j]),
    ensures
        ends_line(features_text(fs)),
{
    let f = fs.last();
    assert(fs[fs.len() - 1] == f);
    assert(feature_ok(f));
    let scs = f.2;
    let sl = scs.last();
    assert(scs[scs.len() - 1] == sl);
    assert(scen_ok(sl));
    lemma_scenario_ends(scs.len() - 1, sl);
    lemma_ends_line_concat(scenarios_text(scs.drop_last()), scenario_text(scs.len() - 1, sl));
    lemma_ends_line_concat(
        feature_head(fs.len() - 1, f.0) + background_text(f.1),
        scenarios_text(scs),
    );
    assert(feature_text(fs.len() - 1, f) =~= (feature_head(fs.len() - 1, f.0) + background_text(
        f.1,
    )) + scenarios_text(scs));
    lemma_ends_line_concat(features_text(fs.drop_last()), feature_text(fs.len() - 1, f));
}

/// What `render_gherkin_features` writes of well-formed features (the
/// text without its final line break) reads back as the same features.
pub proof fn lemma_gherkin_render_roundtrip(fs: Seq<FeatureV>)
    requires
        fs.len() > 0,
        forall|j: int| 0 <= j < fs.len() ==> feature_ok(#[trigger] fs[j]),
    ensures
        parse_features(trim_end(features_text(fs))) == fs,
{
    let t = features_text(fs);
    lemma_gherkin_roundtrip(fs);
    lemma_features_ends(fs);
    lemma_features_start(fs);
    let x = t.drop_last();
    assert(t =~= x + seq!['\n']);
    assert(x.last() == t[t.len() - 2]);
    assert(is_ws('\n'));
    assert(trail_ws(x) == 0);
    assert(trail_ws(t) == 1 + trail_ws(x));
    assert(trim_end(t) =~= x);
    assert(is_ws('\r'));
    lemma_lines_newline_end(x);
    assert(lines(x) == lines(t));
    assert(x[0] == t[0]);
    assert(!is_ws(x[0]));
    lemma_trim_nonblank(x, 0);
    lemma_trim_nonblank(t, 0);
}

} // verus!
