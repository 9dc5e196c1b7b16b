//! Which modules log, and which of their messages are held back.

use crate::text::{holds_text, str_contains, str_eq, texts};
use crate::text::contains;
use vstd::prelude::*;

verus! {

/// The settings that decide what is logged.
#[derive(Debug)]
pub struct LogSettings {
    /// Whether every module logs.
    pub enabled: bool,
    /// The modules that log even where not every module does.
    pub enabled_modules: Vec<String>,
    /// Parts of module paths: a module whose path holds one of them logs.
    pub enabled_features: Vec<String>,
    /// A message that holds one of these is held back.
    pub suppressed_patterns: Vec<String>,
}

/// What `LogSettings` hold.
pub ghost struct LogSettingsView {
    pub enabled: bool,
    pub enabled_modules: Set<Seq<char>>,
    pub enabled_features: Seq<Seq<char>>,
    pub suppressed_patterns: Seq<Seq<char>>,
}

impl View for LogSettings {
    type V = LogSettingsView;

    open spec fn view(&self) -> LogSettingsView {
        LogSettingsView {
            enabled: self.enabled,
            enabled_modules: texts(self.enabled_modules@).to_set(),
            enabled_features: texts(self.enabled_features@),
            suppressed_patterns: texts(self.suppressed_patterns@),
        }
    }
}

/// The two patterns that are held back from the start.
pub open spec fn default_patterns() -> Seq<Seq<char>> {
    seq!["Failed to send SearchStarted"@, "sending on a closed channel"@]
}

/// Whether `text` holds one of `parts`.
pub open spec fn holds_any(text: Seq<char>, parts: Seq<Seq<char>>) -> bool {
    exists|i: int| 0 <= i < parts.len() && contains(text, #[trigger] parts[i])
}

/// Whether the module `module` logs under the settings `s`: every module logs, or
/// this one was enabled by name, or its path holds an enabled feature.
pub open spec fn module_enabled(s: LogSettingsView, module: Seq<char>) -> bool {
    s.enabled || s.enabled_modules.contains(module) || holds_any(
        module,
        s.enabled_features,
    )
}

/// Whether `message` of the module `module` is held back under the settings `s`:
/// the module does not log, or the message holds a suppressed pattern.
pub open spec fn message_suppressed(
    s: LogSettingsView,
    module: Seq<char>,
    message: Seq<char>,
) -> bool {
    !module_enabled(s, module) || holds_any(message, s.suppressed_patterns)
}

/// `all` without the texts that are `p`.
pub open spec fn without(all: Seq<Seq<char>>, p: Seq<char>) -> Seq<Seq<char>>
    decreases all.len(),
{
    if all.len() == 0 {
        all
    } else if all.last() == p {
        without(all.drop_last(), p)
    } else {
        without(all.drop_last(), p).push(all.last())
    }
}

/// `without(all, p)` holds the texts of `all` other than `p`, and no others.
pub proof fn lemma_without(all: Seq<Seq<char>>, p: Seq<char>)
    ensures
        forall|t: Seq<char>| #[trigger] without(all, p).contains(t) <==> (all.contains(t) && t != p),
    decreases all.len(),
{
    if all.len() > 0 {
        let before = all.drop_last();
        lemma_without(before, p);
        assert forall|t: Seq<char>| #[trigger]
            without(all, p).contains(t) <==> (all.contains(t) && t != p) by {
            if without(all, p).contains(t) {
                if without(before, p).contains(t) {
                    let i = choose|i: int| 0 <= i < before.len() && before[i] == t;
                    assert(all[i] == t);
                } else {
                    assert(all[all.len() - 1] == t);
                }
            }
            if all.contains(t) && t != p {
                let i = choose|i: int| 0 <= i < all.len() && all[i] == t;
                if i < all.len() - 1 {
                    assert(before[i] == t);
                    assert(without(before, p).contains(t));
                    if all.last() != p {
                        let j = choose|j: int|
                            0 <= j < without(before, p).len() && without(before, p)[j] == t;
                        assert(without(before, p).push(all.last())[j] == t);
                    }
                } else {
                    assert(without(before, p).push(all.last())[without(before, p).len() as int]
                        == t);
                }
            }
        }
    }
}

/// The texts of `v` other than `p`, in their order.
fn remove_text(v: &Vec<String>, p: &str) -> (out: Vec<String>)
    ensures
        texts(out@) == without(texts(v@), p@),
{
    let mut out: Vec<String> = Vec::new();
    let mut i: usize = 0;
    assert(texts(v@).take(0) =~= Seq::<Seq<char>>::empty());
    assert(texts(out@) =~= Seq::<Seq<char>>::empty());
    while i < v.len()
        invariant
            i <= v.len(),
            texts(out@) == without(texts(v@).take(i as int), p@),
        decreases v.len() - i,
    {
        let ghost before = texts(out@);
        assert(texts(v@).take(i + 1).drop_last() =~= texts(v@).take(i as int));
        assert(texts(v@).take(i + 1).last() == v[i as int]@);
        if !str_eq(v[i].as_str(), p) {
            out.push(v[i].clone());
            assert(texts(out@) =~= before.push(v[i as int]@));
        }
        i += 1;
    }
    assert(texts(v@).take(i as int) =~= texts(v@));
    out
}

/// The settings at the start: no module logs, and the two default patterns are held back.
pub fn init_logger() -> (s: LogSettings)
    ensures
        !s@.enabled,
        s@.enabled_modules == Set::<Seq<char>>::empty(),
        s@.enabled_features == Seq::<Seq<char>>::empty(),
        s@.suppressed_patterns == default_patterns(),
{
    let mut patterns: Vec<String> = Vec::new();
    patterns.push("Failed to send SearchStarted".to_string());
    patterns.push("sending on a closed channel".to_string());
    let s = LogSettings {
        enabled: false,
        enabled_modules: Vec::new(),
        enabled_features: Vec::new(),
        suppressed_patterns: patterns,
    };
    assert(texts(s.suppressed_patterns@) =~= default_patterns());
    assert(texts(s.enabled_features@) =~= Seq::<Seq<char>>::empty());
    assert(texts(s.enabled_modules@).to_set() =~= Set::<Seq<char>>::empty());
    s
}

/// Makes every module log, or stops that; returns `enable`.
pub fn set_logging(settings: &mut LogSettings, enable: bool) -> (r: bool)
    ensures
        r == enable,
        final(settings)@ == (LogSettingsView { enabled: enable, ..old(settings)@ }),
{
    settings.enabled = enable;
    enable
}

/// Whether every module logs.
pub fn is_logging_enabled(settings: &LogSettings) -> (r: bool)
    ensures
        r == settings@.enabled,
{
    settings.enabled
}

/// Makes the module named `module_name` log.
pub fn enable_module(settings: &mut LogSettings, module_name: &str)
    ensures
        final(settings)@ == (LogSettingsView {
            enabled_modules: old(settings)@.enabled_modules.insert(module_name@),
            ..old(settings)@
        }),
{
    if !holds_text(&settings.enabled_modules, module_name) {
        settings.enabled_modules.push(module_name.to_string());
        assert(texts(settings.enabled_modules@) =~= texts(old(settings).enabled_modules@).push(
            module_name@,
        ));
        assert(texts(settings.enabled_modules@).to_set() =~= texts(
            old(settings).enabled_modules@,
        ).to_set().insert(module_name@)) by {
            let before = texts(old(settings).enabled_modules@);
            let after = texts(settings.enabled_modules@);
            assert forall|t: Seq<char>| #[trigger]
                after.contains(t) <==> (before.contains(t) || t == module_name@) by {
                if after.contains(t) {
                    let i = choose|i: int| 0 <= i < after.len() && after[i] == t;
                    if i < before.len() {
                        assert(before[i] == t);
                    }
                }
                if before.contains(t) {
                    let i = choose|i: int| 0 <= i < before.len() && before[i] == t;
                    assert(after[i] == t);
                }
                if t == module_name@ {
                    assert(after[before.len() as int] == t);
                }
            }
        }
    } else {
        assert(old(settings)@.enabled_modules.insert(module_name@) =~= old(
            settings,
        )@.enabled_modules);
    }
}

/// Takes the module named `module_name` from those that log by name.
pub fn disable_module(settings: &mut LogSettings, module_name: &str)
    ensures
        final(settings)@ == (LogSettingsView {
            enabled_modules: old(settings)@.enabled_modules.remove(module_name@),
            ..old(settings)@
        }),
{
    let kept = remove_text(&settings.enabled_modules, module_name);
    proof {
        lemma_without(texts(settings.enabled_modules@), module_name@);
        assert(texts(kept@).to_set() =~= texts(settings.enabled_modules@).to_set().remove(
            module_name@,
        ));
    }
    settings.enabled_modules = kept;
}

/// Makes each module log whose path holds `part`.
pub fn enable_feature(settings: &mut LogSettings, part: &str)
    ensures
        final(settings)@ == (LogSettingsView {
            enabled_features: old(settings)@.enabled_features.push(part@),
            ..old(settings)@
        }),
{
    settings.enabled_features.push(part.to_string());
    assert(texts(settings.enabled_features@) =~= texts(old(settings).enabled_features@).push(
        part@,
    ));
}

/// Holds back, from now on, each message that holds `pattern`.
pub fn add_suppression_pattern(settings: &mut LogSettings, pattern: &str)
    ensures
        final(settings)@ == (LogSettingsView {
            suppressed_patterns: old(settings)@.suppressed_patterns.push(pattern@),
            ..old(settings)@
        }),
{
    settings.suppressed_patterns.push(pattern.to_string());
    assert(texts(settings.suppressed_patterns@) =~= texts(
        old(settings).suppressed_patterns@,
    ).push(pattern@));
}

/// Takes `pattern` from the patterns that are held back, wherever it stands among them.
pub fn remove_suppression_pattern(settings: &mut LogSettings, pattern: &str)
    ensures
        final(settings)@ == (LogSettingsView {
            suppressed_patterns: without(old(settings)@.suppressed_patterns, pattern@),
            ..old(settings)@
        }),
{
    let kept = remove_text(&settings.suppressed_patterns, pattern);
    settings.suppressed_patterns = kept;
}

/// Holds back no pattern any more.
pub fn clear_suppression_patterns(settings: &mut LogSettings)
    ensures
        final(settings)@ == (LogSettingsView {
            suppressed_patterns: Seq::<Seq<char>>::empty(),
            ..old(settings)@
        }),
{
    settings.suppressed_patterns = Vec::new();
    assert(texts(settings.suppressed_patterns@) =~= Seq::<Seq<char>>::empty());
}

/// Whether `text` holds one of `parts`.
fn holds_any_of(text: &str, parts: &Vec<String>) -> (r: bool)
    ensures
        r == holds_any(text@, texts(parts@)),
{
    let mut i: usize = 0;
    while i < parts.len()
        invariant
            i <= parts.len(),
            forall|j: int| 0 <= j < i ==> !contains(text@, #[trigger] parts[j]@),
        decreases parts.len() - i,
    {
        if str_contains(text, parts[i].as_str()) {
            assert(contains(text@, texts(parts@)[i as int]));
            return true;
        }
        i += 1;
    }
    assert forall|j: int| 0 <= j < texts(parts@).len() implies !contains(
        text@,
        #[trigger] texts(parts@)[j],
    ) by {
        assert(texts(parts@)[j] == parts[j]@);
    }
    false
}

/// Whether the module `module` logs.
pub fn is_module_enabled(settings: &LogSettings, module: &str) -> (r: bool)
    ensures
        r == module_enabled(settings@, module@),
{
    settings.enabled || holds_text(&settings.enabled_modules, module) || holds_any_of(
        module,
        &settings.enabled_features,
    )
}

/// Whether `message` of the module `module` is held back.
pub fn should_suppress_message(settings: &LogSettings, module: &str, message: &str) -> (r:
    bool)
    ensures
        r == message_suppressed(settings@, module@, message@),
{
    if is_module_enabled(settings, module) {
        holds_any_of(message, &settings.suppressed_patterns)
    } else {
        true
    }
}

} // verus!
