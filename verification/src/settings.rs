//! App-level settings and the ids of user-defined models.

use vstd::prelude::*;
use crate::text::{chars_of, ends_with, lower_char, starts_with};
use crate::memory::{joined_path, path_join};

verus! {

/// Persisted user preferences.
#[derive(Debug, Clone)]
pub struct AppSettings {
    /// Benchmark thoroughness: "quick" | "balanced" | "full".
    pub benchmark_intensity: String,
    /// If set, forces this model tag instead of the top recommendation.
    pub model_override: Option<String>,
    /// Override directory where models are stored.
    pub models_dir: Option<String>,
    /// Override directory where chats and memory are stored.
    pub memory_dir: Option<String>,
    /// How Agent mode perceives the screen: "accessibility" or "vision".
    pub perception: String,
    /// Vision model to describe screenshots when perception = "vision".
    pub vision_model: Option<String>,
    /// When true (the default), no telemetry is ever collected.
    pub telemetry_off: bool,
}

/// The perception used when none is set.
pub fn default_perception() -> (r: String)
    ensures
        r@ == "accessibility"@,
{
    String::from_str("accessibility")
}

impl Default for AppSettings {
    /// Balanced benchmarks, no overrides, accessibility perception, no
    /// telemetry.
    fn default() -> (r: AppSettings)
        ensures
            r.benchmark_intensity@ == "balanced"@,
            r.model_override is None,
            r.models_dir is None,
            r.memory_dir is None,
            r.perception@ == "accessibility"@,
            r.vision_model is None,
            r.telemetry_off,
    {
        AppSettings {
            benchmark_intensity: String::from_str("balanced"),
            model_override: None,
            models_dir: None,
            memory_dir: None,
            perception: default_perception(),
            vision_model: None,
            telemetry_off: true,
        }
    }
}

pub open spec fn is_ascii_alnum(c: char) -> bool {
    ('a' <= c <= 'z') || ('A' <= c <= 'Z') || ('0' <= c <= '9')
}

/// The slug body of `s` and whether it ends in a dash: ASCII letters and
/// digits are kept (lowercased), every run of other characters becomes one
/// `-`, and none is put at the very start.
pub open spec fn slug_body(s: Seq<char>) -> (Seq<char>, bool)
    decreases s.len(),
{
    if s.len() == 0 {
        (Seq::empty(), true)
    } else {
        let (o, dash) = slug_body(s.drop_last());
        let c = s.last();
        if is_ascii_alnum(c) {
            (o.push(lower_char(c)), false)
        } else if !dash {
            (o.push('-'), true)
        } else {
            (o, dash)
        }
    }
}

/// The id for a custom model: `custom-` and the slug body without a
/// trailing dash, or `custom-model` when nothing is left.
pub open spec fn slug_of(name: Seq<char>) -> Seq<char> {
    let o = "custom-"@ + slug_body(name).0;
    let o2 = if ends_with(o, "-"@) { o.drop_last() } else { o };
    if o2 == "custom"@ { "custom-model"@ } else { o2 }
}

/// Turns a human display name into a stable, filesystem-safe id, prefixed
/// with `custom-` so user models never collide with catalog ids.
pub fn slug(display_name: &str) -> (r: String)
    ensures
        r@ == slug_of(display_name@),
{
    let v = chars_of(display_name);
    let mut out = String::from_str("custom-");
    let mut last_dash = true;
    let mut i: usize = 0;
    while i < v.len()
        invariant
            i <= v@.len(),
            (out@, last_dash) == ("custom-"@ + slug_body(v@.take(i as int)).0, slug_body(v@.take(i as int)).1),
        decreases v@.len() - i,
    {
        let c = v[i];
        assert(v@.take(i + 1).drop_last() =~= v@.take(i as int));
        if ('a' <= c && c <= 'z') || ('A' <= c && c <= 'Z') || ('0' <= c && c <= '9') {
            crate::text::push_char(&mut out, crate::text::to_ascii_lower(c));
            last_dash = false;
        } else if !last_dash {
            crate::text::push_char(&mut out, '-');
            last_dash = true;
        }
        i = i + 1;
        assert(out@ =~= "custom-"@ + slug_body(v@.take(i as int)).0);
    }
    assert(v@.take(v@.len() as int) =~= v@);
    let ov = chars_of(out.as_str());
    proof {
        reveal_strlit("-");
    }
    let mut o2 = if crate::text::has_suffix(&ov, "-") {
        crate::text::string_of_range(&ov, 0, ov.len() - 1)
    } else {
        out
    };
    proof {
        reveal_strlit("-");
        if ends_with(ov@, "-"@) {
            assert(ov@.subrange(0, ov@.len() - 1) =~= ov@.drop_last());
        }
    }
    let o2v = chars_of(o2.as_str());
    if crate::text::vec_is(&o2v, "custom") {
        o2 = String::from_str("custom-model");
    }
    o2
}

/// What a slug is made of: `custom-`, then lowercase ASCII letters, digits
/// and single dashes, neither starting nor ending with a dash.
pub open spec fn is_slug(s: Seq<char>) -> bool {
    let body = s.skip(7);
    &&& starts_with(s, "custom-"@)
    &&& body.len() > 0
    &&& body[0] != '-'
    &&& body.last() != '-'
    &&& forall|i: int| 0 <= i < body.len() ==> ('a' <= #[trigger] body[i] <= 'z') || ('0' <= body[i] <= '9') || body[i] == '-'
    &&& forall|i: int| 0 <= i < body.len() - 1 ==> !(#[trigger] body[i] == '-' && body[i + 1] == '-')
}

proof fn lemma_slug_body(s: Seq<char>)
    ensures
        ({
            let (o, dash) = slug_body(s);
            &&& o.len() > 0 ==> o[0] != '-'
            &&& (o.len() > 0 && !dash) ==> o.last() != '-'
            &&& (o.len() > 0 && dash) ==> o.last() == '-'
            &&& forall|i: int| 0 <= i < o.len() ==> ('a' <= #[trigger] o[i] <= 'z') || ('0' <= o[i] <= '9') || o[i] == '-'
            &&& forall|i: int| 0 <= i < o.len() - 1 ==> !(#[trigger] o[i] == '-' && o[i + 1] == '-')
        }),
    decreases s.len(),
{
    if s.len() > 0 {
        lemma_slug_body(s.drop_last());
    }
}

/// Every slug has the slug shape, whatever the display name.
pub proof fn lemma_slug_shape(name: Seq<char>)
    ensures
        is_slug(slug_of(name)),
{
    reveal_strlit("custom-");
    reveal_strlit("custom");
    reveal_strlit("custom-model");
    reveal_strlit("-");
    lemma_slug_body(name);
    let (b, dash) = slug_body(name);
    let o = "custom-"@ + b;
    assert(o.skip(7) =~= b);
    assert(o.subrange(0, 7) =~= "custom-"@);
    if ends_with(o, "-"@) {
        let o2 = o.drop_last();
        if b.len() == 0 {
            assert(o2 =~= "custom"@);
            let m = "custom-model"@;
            assert(m.skip(7) =~= seq!['m', 'o', 'd', 'e', 'l']);
            assert(m.subrange(0, 7) =~= "custom-"@);
        } else {
            assert(o.subrange(o.len() - 1, o.len() as int)[0] == o.last());
            assert(o.last() == b.last());
            assert(b.last() == '-');
            assert(dash);
            assert(o2.skip(7) =~= b.drop_last());
            assert(o2.subrange(0, 7) =~= "custom-"@);
            if b.len() == 1 {
                assert(false);
            }
            assert(b.drop_last().last() == b[b.len() - 2]);
            assert(o2 != "custom"@) by {
                assert(o2.len() > 6);
            }
        }
    } else {
        assert(o.len() > 0 && o.last() != '-') by {
            assert("-"@ =~= seq!['-']);
            assert(o.subrange(o.len() - 1, o.len() as int) =~= seq![o.last()]);
        }
        if b.len() == 0 {
            assert(o =~= "custom-"@);
            assert(o.subrange(6, 7) =~= "-"@);
        }
        assert(o != "custom"@) by {
            assert(o.len() > 6);
        }
    }
}


/// The file holding the settings, under the data directory.
pub fn settings_path(dir: &str) -> (r: String)
    ensures
        r@ == joined_path(dir@, "settings.json"@),
{
    path_join(dir, "settings.json")
}

/// The file holding the custom models, under the data directory.
pub fn custom_models_path(dir: &str) -> (r: String)
    ensures
        r@ == joined_path(dir@, "custom_models.json"@),
{
    path_join(dir, "custom_models.json")
}

} // verus!
