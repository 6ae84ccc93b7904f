//! Per-window rule resolution: the first structurally matching rule wins, and
//! any field it leaves unset falls back to the given default, field by field.
//!
//! Pattern matching is delegated to the `regex` crate behind a small trusted
//! boundary; everything on top of it is verified.
use vstd::prelude::*;

use crate::config::WindowRule;
use crate::niri::Window;

verus! {

#[verifier::external_type_specification]
#[verifier::external_body]
pub struct ExRegex(regex::Regex);

/// Whether the regular expression written `pattern` matches anywhere in
/// `text`. Names the result of `regex::Regex::is_match`, which depends on the
/// pattern and the haystack alone.
pub uninterp spec fn regex_match(pattern: Seq<char>, text: Seq<char>) -> bool;

/// Whether `pattern` is a valid regular expression. Names the success of
/// `regex::Regex::new` under its default configuration, which depends on the
/// pattern text alone.
pub uninterp spec fn regex_valid(pattern: Seq<char>) -> bool;

/// A compiled pattern paired with its source text. The only constructor is
/// [`Pattern::new`], so the compiled field always stems from `source`; the
/// trusted contract of [`pattern_matches`] leans on that.
#[derive(Debug)]
pub struct Pattern {
    compiled: regex::Regex,
    source: String,
}

impl View for Pattern {
    type V = Seq<char>;

    closed spec fn view(&self) -> Seq<char> {
        self.source@
    }
}

/// Relies on `regex::Regex::new`: with the default builder configuration,
/// compiling succeeds or fails as a function of the pattern text alone.
#[verifier::external_body]
fn compile_regex(source: &str) -> (r: Option<regex::Regex>)
    ensures
        r is Some <==> regex_valid(source@),
{
    match regex::Regex::new(source) {
        Ok(re) => Some(re),
        Err(_) => None,
    }
}

/// Relies on `regex::Regex::is_match`: whether the pattern that `p` was
/// compiled from matches anywhere in `text`, a function of the pattern and
/// the haystack text alone.
#[verifier::external_body]
fn pattern_matches(p: &Pattern, text: &str) -> (r: bool)
    ensures
        r == regex_match(p@, text@),
{
    p.compiled.is_match(text)
}

impl Pattern {
    /// Compile `source`; `None` exactly when it is not a valid pattern.
    pub fn new(source: &str) -> (r: Option<Pattern>)
        ensures
            r is Some <==> regex_valid(source@),
            r is Some ==> r->0@ == source@,
    {
        match compile_regex(source) {
            Some(compiled) => Some(Pattern { compiled, source: source.to_owned() }),
            None => None,
        }
    }

    /// Whether this pattern matches anywhere in `text`.
    pub fn is_match(&self, text: &str) -> (r: bool)
        ensures
            r == regex_match(self@, text@),
    {
        pattern_matches(self, text)
    }
}

/// A rule matches a window iff each of its patterns is unset or matches the
/// corresponding attribute; a pattern that is set while the attribute is
/// absent is a non-match.
pub open spec fn rule_matches(app_id: Option<String>, title: Option<String>, rule: WindowRule) -> bool {
    &&& match rule.app_id {
        None => true,
        Some(p) => match app_id {
            Some(a) => regex_match(p@, a@),
            None => false,
        },
    }
    &&& match rule.title {
        None => true,
        Some(p) => match title {
            Some(t) => regex_match(p@, t@),
            None => false,
        },
    }
}

/// The first rule in order that matches the window, if any.
pub open spec fn matching_rule(rules: Seq<WindowRule>, app_id: Option<String>, title: Option<String>) -> Option<WindowRule>
    decreases rules.len(),
{
    if rules.len() == 0 {
        None
    } else if rule_matches(app_id, title, rules[0]) {
        Some(rules[0])
    } else {
        matching_rule(rules.skip(1), app_id, title)
    }
}

/// Dropping a prefix of rules none of which matches leaves the selected rule
/// unchanged.
proof fn lemma_matching_rule_skip(rules: Seq<WindowRule>, app_id: Option<String>, title: Option<String>, i: int)
    requires
        0 <= i <= rules.len(),
        forall|j: int| 0 <= j < i ==> !rule_matches(app_id, title, rules[j]),
    ensures
        matching_rule(rules, app_id, title) == matching_rule(rules.skip(i), app_id, title),
    decreases i,
{
    if i == 0 {
        assert(rules.skip(0) =~= rules);
    } else {
        assert(!rule_matches(app_id, title, rules[0]));
        assert forall|j: int| 0 <= j < i - 1 implies !rule_matches(app_id, title, rules.skip(1)[j]) by {
            assert(rules.skip(1)[j] == rules[j + 1]);
        }
        lemma_matching_rule_skip(rules.skip(1), app_id, title, i - 1);
        assert(rules.skip(1).skip(i - 1) =~= rules.skip(i));
    }
}

/// Index of the first matching rule, or the length when none matches.
fn find_matching_rule(rules: &Vec<WindowRule>, app_id: &Option<String>, title: &Option<String>) -> (r: usize)
    ensures
        r <= rules@.len(),
        r < rules@.len() ==> matching_rule(rules@, *app_id, *title) == Some(rules@[r as int]),
        r == rules@.len() ==> matching_rule(rules@, *app_id, *title) is None,
{
    let n: usize = rules.len();
    let mut i: usize = 0;
    while i < n
        invariant
            i <= n,
            n == rules@.len(),
            forall|j: int| 0 <= j < i ==> !rule_matches(*app_id, *title, rules@[j]),
        decreases n - i,
    {
        let rule = &rules[i];
        let app_ok: bool = match &rule.app_id {
            None => true,
            Some(p) => match app_id {
                Some(a) => p.is_match(a.as_str()),
                None => false,
            },
        };
        let title_ok: bool = match &rule.title {
            None => true,
            Some(p) => match title {
                Some(t) => p.is_match(t.as_str()),
                None => false,
            },
        };
        if app_ok && title_ok {
            proof {
                lemma_matching_rule_skip(rules@, *app_id, *title, i as int);
                assert(rules@.skip(i as int)[0] == rules@[i as int]);
            }
            return i;
        }
        i = i + 1;
    }
    proof {
        lemma_matching_rule_skip(rules@, *app_id, *title, n as int);
    }
    n
}

/// The `(width, height)` the rules assign to a window over the given
/// defaults: the first matching rule's fields where set, else the defaults.
pub open spec fn spec_resolve_size(
    rules: Seq<WindowRule>,
    app_id: Option<String>,
    title: Option<String>,
    default_w: i32,
    default_h: i32,
) -> (i32, i32) {
    match matching_rule(rules, app_id, title) {
        Some(rule) => (
            match rule.width {
                Some(w) => w,
                None => default_w,
            },
            match rule.height {
                Some(h) => h,
                None => default_h,
            },
        ),
        None => (default_w, default_h),
    }
}

/// The peek distance the rules assign over the default.
pub open spec fn spec_resolve_peek(
    rules: Seq<WindowRule>,
    app_id: Option<String>,
    title: Option<String>,
    default_peek: i32,
) -> i32 {
    match matching_rule(rules, app_id, title) {
        Some(rule) => match rule.peek {
            Some(p) => p,
            None => default_peek,
        },
        None => default_peek,
    }
}

/// The focus-peek distance the rules assign over the default.
pub open spec fn spec_resolve_focus_peek(
    rules: Seq<WindowRule>,
    app_id: Option<String>,
    title: Option<String>,
    default_focus_peek: i32,
) -> i32 {
    match matching_rule(rules, app_id, title) {
        Some(rule) => match rule.focus_peek {
            Some(p) => p,
            None => default_focus_peek,
        },
        None => default_focus_peek,
    }
}

/// Whether the rules mark the window for automatic tracking; no matching rule
/// means no.
pub open spec fn spec_resolve_auto_add(
    rules: Seq<WindowRule>,
    app_id: Option<String>,
    title: Option<String>,
) -> bool {
    match matching_rule(rules, app_id, title) {
        Some(rule) => rule.auto_add,
        None => false,
    }
}

/// Resolve the window's target size from the first matching rule, falling
/// back to the defaults field by field.
pub fn resolve_window_size(
    rules: &Vec<WindowRule>,
    window: &Window,
    default_w: i32,
    default_h: i32,
) -> (r: (i32, i32))
    ensures
        r == spec_resolve_size(rules@, window.app_id, window.title, default_w, default_h),
{
    let i = find_matching_rule(rules, &window.app_id, &window.title);
    if i < rules.len() {
        let rule = &rules[i];
        let w: i32 = match rule.width {
            Some(w) => w,
            None => default_w,
        };
        let h: i32 = match rule.height {
            Some(h) => h,
            None => default_h,
        };
        (w, h)
    } else {
        (default_w, default_h)
    }
}

/// Resolve the window's peek distance from the first matching rule.
pub fn resolve_rule_peek(rules: &Vec<WindowRule>, window: &Window, default_peek: i32) -> (r: i32)
    ensures
        r == spec_resolve_peek(rules@, window.app_id, window.title, default_peek),
{
    let i = find_matching_rule(rules, &window.app_id, &window.title);
    if i < rules.len() {
        match rules[i].peek {
            Some(p) => p,
            None => default_peek,
        }
    } else {
        default_peek
    }
}

/// Resolve the window's focus-peek distance from the first matching rule.
pub fn resolve_rule_focus_peek(rules: &Vec<WindowRule>, window: &Window, default_focus_peek: i32) -> (r: i32)
    ensures
        r == spec_resolve_focus_peek(rules@, window.app_id, window.title, default_focus_peek),
{
    let i = find_matching_rule(rules, &window.app_id, &window.title);
    if i < rules.len() {
        match rules[i].focus_peek {
            Some(p) => p,
            None => default_focus_peek,
        }
    } else {
        default_focus_peek
    }
}

/// Whether an auto-add rule selects the window.
pub fn resolve_auto_add(rules: &Vec<WindowRule>, window: &Window) -> (r: bool)
    ensures
        r == spec_resolve_auto_add(rules@, window.app_id, window.title),
{
    let i = find_matching_rule(rules, &window.app_id, &window.title);
    if i < rules.len() {
        rules[i].auto_add
    } else {
        false
    }
}

/// First matching rule wins: if rule `i` matches and no earlier rule does,
/// rule `i` is the one every per-field resolution reads.
pub proof fn lemma_first_rule_wins(
    rules: Seq<WindowRule>,
    app_id: Option<String>,
    title: Option<String>,
    i: int,
)
    requires
        0 <= i < rules.len(),
        rule_matches(app_id, title, rules[i]),
        forall|j: int| 0 <= j < i ==> !rule_matches(app_id, title, rules[j]),
    ensures
        matching_rule(rules, app_id, title) == Some(rules[i]),
{
    lemma_matching_rule_skip(rules, app_id, title, i);
    assert(rules.skip(i)[0] == rules[i]);
}

} // verus!
