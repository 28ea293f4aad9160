use vstd::prelude::*;

use crate::json::{
    bool_of, entries_view, field, json_view, lookup, lemma_entries_view_push, opt_str, str_of, Json, JsonNumber,
    JsonView,
};
use crate::turns::lemma_filter_all;
use crate::text::{lemma_prefix_idempotent, prefix, take_chars, trim, trim_end_slashes, trim_string, trim_trailing_slashes};

verus! {

/// Most characters a string setting keeps.
pub const MAX_SETTING_CHARS: usize = 200_000;

// ---------------------------------------------------------------------------
// Settings handed over by the main window.
// ---------------------------------------------------------------------------

/// A setting survives when its value is a string, a number or a flag.
pub open spec fn is_scalar_setting(e: (Seq<char>, JsonView)) -> bool {
    e.1 is Str || e.1 is Number || e.1 is Bool
}

/// A surviving setting, with a string value bounded.
pub open spec fn clean_setting(e: (Seq<char>, JsonView)) -> (Seq<char>, JsonView) {
    match e.1 {
        JsonView::Str(s) => (e.0, JsonView::Str(prefix(s, MAX_SETTING_CHARS as nat))),
        _ => e,
    }
}

/// The settings kept from an object, in order.
pub open spec fn kept_settings(es: Seq<(Seq<char>, JsonView)>) -> Seq<(Seq<char>, JsonView)> {
    es.filter(|e: (Seq<char>, JsonView)| is_scalar_setting(e)).map_values(
        |e: (Seq<char>, JsonView)| clean_setting(e),
    )
}

/// Sanitized settings: an object of the string, number and flag settings of the source
/// object; an empty object when there is no source object.
pub open spec fn sanitized_settings(src: Option<JsonView>) -> JsonView {
    match src {
        Some(JsonView::Object(es)) => JsonView::Object(kept_settings(es)),
        _ => JsonView::Object(Seq::empty()),
    }
}

proof fn lemma_kept_settings_push(s: Seq<(Seq<char>, JsonView)>, x: (Seq<char>, JsonView))
    ensures
        kept_settings(s.push(x)) == if is_scalar_setting(x) {
            kept_settings(s).push(clean_setting(x))
        } else {
            kept_settings(s)
        },
{
    let p = |e: (Seq<char>, JsonView)| is_scalar_setting(e);
    let f = |e: (Seq<char>, JsonView)| clean_setting(e);
    let a = s.filter(p);
    s.lemma_filter_push(x, p);
    if is_scalar_setting(x) {
        assert(a.push(x).map_values(f) =~= a.map_values(f).push(clean_setting(x)));
    }
}

impl JsonNumber {
    /// A copy of this number.
    pub fn copy(&self) -> (r: JsonNumber)
        ensures
            r@ == self@,
    {
        match self {
            JsonNumber::PosInt(u) => JsonNumber::PosInt(*u),
            JsonNumber::NegInt(i) => JsonNumber::NegInt(*i),
            JsonNumber::Float(s) => JsonNumber::Float(s.clone()),
        }
    }
}

/// Keeps the string, number and flag settings of an object, with strings bounded to
/// `MAX_SETTING_CHARS` characters; anything else gives an empty object.
pub fn sanitize_settings(settings: Option<Json>) -> (r: Json)
    ensures
        r@ == sanitized_settings(match settings {
            Some(j) => Some(j@),
            None => None,
        }),
{
    let mut clean: Vec<(String, Json)> = Vec::new();
    assert(entries_view(clean@) =~= Seq::<(Seq<char>, JsonView)>::empty());
    match &settings {
        Some(Json::Object(entries)) => {
            let ghost src = entries_view(entries@);
            assert(entries@.take(0) =~= Seq::<(String, Json)>::empty());
            assert(kept_settings(entries_view(entries@.take(0))) =~= Seq::<(Seq<char>, JsonView)>::empty());
            for i in 0..entries.len()
                invariant
                    entries_view(clean@) == kept_settings(entries_view(entries@.take(i as int))),
            {
                let e = &entries[i];
                let ghost before = entries@.take(i as int);
                proof {
                    assert(entries@.take(i + 1) =~= before.push(*e));
                    lemma_entries_view_push(before, *e);
                    lemma_kept_settings_push(entries_view(before), (e.0@, json_view(e.1)));
                }
                let kept = match &e.1 {
                    Json::Str(s) => Some(Json::Str(take_chars(s, MAX_SETTING_CHARS))),
                    Json::Number(n) => Some(Json::Number(n.copy())),
                    Json::Bool(b) => Some(Json::Bool(*b)),
                    _ => None,
                };
                match kept {
                    Some(v) => {
                        let ghost old_clean = clean@;
                        let entry = (e.0.clone(), v);
                        clean.push(entry);
                        proof {
                            lemma_entries_view_push(old_clean, entry);
                        }
                    },
                    None => {},
                }
            }
            assert(entries@.take(entries.len() as int) =~= entries@);
        },
        _ => {},
    }
    Json::Object(clean)
}

/// Sanitizing sanitized settings changes nothing.
pub proof fn law_settings_idempotent(src: Option<JsonView>)
    ensures
        sanitized_settings(Some(sanitized_settings(src))) == sanitized_settings(src),
{
    broadcast use vstd::seq_lib::group_filter_ensures;

    match src {
        Some(JsonView::Object(es)) => {
            let p = |e: (Seq<char>, JsonView)| is_scalar_setting(e);
            let f = |e: (Seq<char>, JsonView)| clean_setting(e);
            let k = kept_settings(es);
            assert forall|i: int| 0 <= i < k.len() implies p(k[i]) && f(k[i]) == k[i] by {
                let a = es.filter(p);
                assert(p(a[i]));
                match a[i].1 {
                    JsonView::Str(s) => lemma_prefix_idempotent(s, MAX_SETTING_CHARS as nat),
                    _ => {},
                }
            }
            lemma_filter_all(k, p);
            assert(k.filter(p) == k);
            assert(k.map_values(f) =~= k);
            assert(kept_settings(k) == k.filter(p).map_values(f));
            assert(kept_settings(k) == k);
            assert(sanitized_settings(src) == JsonView::Object(k));
            assert(sanitized_settings(Some(JsonView::Object(k))) == JsonView::Object(kept_settings(k)));
            assert(sanitized_settings(Some(sanitized_settings(src))) == sanitized_settings(src));
        },
        _ => {
            lemma_filter_all(Seq::<(Seq<char>, JsonView)>::empty(), |e: (Seq<char>, JsonView)| is_scalar_setting(e));
            assert(kept_settings(Seq::<(Seq<char>, JsonView)>::empty()) =~= Seq::<(Seq<char>, JsonView)>::empty());
            assert(sanitized_settings(Some(sanitized_settings(src))) == sanitized_settings(src));
        },
    }
}

/// No two entries of an object share a key (as in a parsed JSON object).
pub open spec fn unique_keys(es: Seq<(Seq<char>, JsonView)>) -> bool {
    forall|i: int, j: int| 0 <= i < j < es.len() ==> (#[trigger] es[i]).0 != (#[trigger] es[j]).0
}

/// What the sanitized settings hold for a setting whose source value is `v`: strings
/// bounded to `MAX_SETTING_CHARS` characters, numbers and flags as they are, nothing else.
pub open spec fn kept_setting_value(v: Option<JsonView>) -> Option<JsonView> {
    match v {
        Some(JsonView::Str(s)) => Some(JsonView::Str(prefix(s, MAX_SETTING_CHARS as nat))),
        Some(JsonView::Number(n)) => Some(JsonView::Number(n)),
        Some(JsonView::Bool(b)) => Some(JsonView::Bool(b)),
        _ => None,
    }
}

proof fn lemma_lookup_none(es: Seq<(Seq<char>, JsonView)>, k: Seq<char>)
    ensures
        (lookup(es, k) is None) <==> (forall|i: int| 0 <= i < es.len() ==> (#[trigger] es[i]).0 != k),
    decreases es.len(),
{
    if es.len() > 0 {
        let d = es.drop_last();
        lemma_lookup_none(d, k);
        if lookup(es, k) is None {
            assert forall|i: int| 0 <= i < es.len() implies (#[trigger] es[i]).0 != k by {
                if i < d.len() {
                    assert(es[i] == d[i]);
                }
            }
        }
        if forall|i: int| 0 <= i < es.len() ==> (#[trigger] es[i]).0 != k {
            assert(es[es.len() - 1].0 != k);
            assert forall|i: int| 0 <= i < d.len() implies (#[trigger] d[i]).0 != k by {
                assert(es[i] == d[i]);
            }
        }
    }
}

proof fn lemma_kept_settings_lookup(es: Seq<(Seq<char>, JsonView)>, k: Seq<char>)
    requires
        unique_keys(es),
    ensures
        lookup(kept_settings(es), k) == kept_setting_value(lookup(es, k)),
        unique_keys(kept_settings(es)),
    decreases es.len(),
{
    if es.len() == 0 {
        assert(kept_settings(es) =~= Seq::<(Seq<char>, JsonView)>::empty());
    } else {
        let d = es.drop_last();
        let x = es.last();
        assert forall|i: int, j: int| 0 <= i < j < d.len() implies (#[trigger] d[i]).0 != (#[trigger] d[j]).0 by {
            assert(d[i] == es[i] && d[j] == es[j]);
        }
        lemma_kept_settings_lookup(d, k);
        lemma_kept_settings_lookup(d, x.0);
        assert(d.push(x) =~= es);
        lemma_kept_settings_push(d, x);
        assert forall|i: int| 0 <= i < d.len() implies (#[trigger] d[i]).0 != x.0 by {
            assert(d[i] == es[i]);
        }
        lemma_lookup_none(d, x.0);
        let kd = kept_settings(d);
        lemma_lookup_none(kd, x.0);
        if is_scalar_setting(x) {
            let kp = kd.push(clean_setting(x));
            assert(kp.drop_last() =~= kd);
            assert forall|i: int, j: int| 0 <= i < j < kp.len() implies (#[trigger] kp[i]).0 != (#[trigger] kp[j]).0 by {
                if j < kd.len() {
                    assert(kp[i] == kd[i] && kp[j] == kd[j]);
                } else {
                    assert(kp[i] == kd[i]);
                    assert(kp[j] == clean_setting(x));
                }
            }
        }
    }
}

/// Sanitized settings are an object; when the source is an object (whose keys are
/// distinct), a setting is there exactly when its source value is a string, a number or a
/// flag, with that value (a string bounded to `MAX_SETTING_CHARS` characters), and the keys
/// stay distinct; any other source gives an empty object.
pub proof fn law_settings_fields(src: Option<JsonView>, k: Seq<char>)
    requires
        src matches Some(JsonView::Object(es)) ==> unique_keys(es),
    ensures
        sanitized_settings(src) is Object,
        unique_keys(sanitized_settings(src)->Object_0),
        src matches Some(JsonView::Object(es)) ==> field(sanitized_settings(src), k) == kept_setting_value(
            lookup(es, k),
        ),
        !(src matches Some(JsonView::Object(_))) ==> sanitized_settings(src) == JsonView::Object(
            Seq::empty(),
        ),
{
    match src {
        Some(JsonView::Object(es)) => {
            lemma_kept_settings_lookup(es, k);
        },
        _ => {},
    }
}

// ---------------------------------------------------------------------------
// Individual settings.
// ---------------------------------------------------------------------------

/// The text of string field `k` of `v`, or `default` when there is none.
pub open spec fn str_field_or(v: JsonView, k: Seq<char>, default: Seq<char>) -> Seq<char> {
    match str_of(field(v, k)) {
        Some(s) => s,
        None => default,
    }
}

/// The text of string field `key`, or `default`.
pub fn str_field_or_default(v: &Json, key: &str, default: &str) -> (r: String)
    ensures
        r@ == str_field_or(v@, key@, default@),
{
    match opt_str(v.get(key)) {
        Some(s) => s.clone(),
        None => default.to_owned(),
    }
}

/// The accelerator the desktop shortcut registers: the trimmed `desktopShortcut` setting,
/// or `Control+A` when it is missing or blank.
pub open spec fn accelerator_of(settings: JsonView) -> Seq<char> {
    match str_of(field(settings, "desktopShortcut"@)) {
        Some(s) => if trim(s).len() > 0 { trim(s) } else { "Control+A"@ },
        None => "Control+A"@,
    }
}

/// The accelerator the desktop shortcut registers for these settings.
pub fn desktop_shortcut_accelerator(settings: &Json) -> (r: String)
    ensures
        r@ == accelerator_of(settings@),
{
    match opt_str(settings.get("desktopShortcut")) {
        Some(s) => {
            let t = trim_string(s);
            if t.as_str().is_empty() {
                "Control+A".to_owned()
            } else {
                t
            }
        },
        None => "Control+A".to_owned(),
    }
}

/// The address, key and voice of the Fish Audio service.
#[derive(Debug, Clone)]
pub struct FishAudioConfig {
    pub api_base: String,
    pub api_key: String,
    pub voice_id: String,
}

/// Fish Audio settings read from a configuration object: the `apiBase` field
/// (default `https://fishaudio.org`) without trailing slashes, and the trimmed
/// `apiKey` and `voiceId` fields (default empty).
pub open spec fn fish_config_of(v: JsonView) -> (Seq<char>, Seq<char>, Seq<char>) {
    (
        trim_end_slashes(str_field_or(v, "apiBase"@, "https://fishaudio.org"@)),
        trim(str_field_or(v, "apiKey"@, ""@)),
        trim(str_field_or(v, "voiceId"@, ""@)),
    )
}

/// Reads the Fish Audio settings from a configuration object.
pub fn fish_audio_config_from_value(value: &Json) -> (r: FishAudioConfig)
    ensures
        (r.api_base@, r.api_key@, r.voice_id@) == fish_config_of(value@),
{
    let base = str_field_or_default(value, "apiBase", "https://fishaudio.org");
    let key = str_field_or_default(value, "apiKey", "");
    let voice = str_field_or_default(value, "voiceId", "");
    FishAudioConfig {
        api_base: trim_trailing_slashes(&base),
        api_key: trim_string(&key),
        voice_id: trim_string(&voice),
    }
}

/// The screenshot quality named by the `desktopImageQuality` setting, `balanced` by default.
pub open spec fn image_quality_of(settings: JsonView) -> Seq<char> {
    str_field_or(settings, "desktopImageQuality"@, "balanced"@)
}

/// The screenshot quality a session's settings ask for.
pub fn image_quality_setting(settings: &Json) -> (r: String)
    ensures
        r@ == image_quality_of(settings@),
{
    str_field_or_default(settings, "desktopImageQuality", "balanced")
}

/// Longest screenshot edge and JPEG quality for a lower-cased quality name.
pub open spec fn quality_settings(lower: Seq<char>) -> (u32, u8) {
    if lower == "low"@ {
        (1280, 72)
    } else if lower == "high"@ {
        (2560, 92)
    } else {
        (1920, 85)
    }
}

/// Longest screenshot edge and JPEG quality for a quality name already in lower case.
pub fn quality_for_lowercase(lower: &str) -> (r: (u32, u8))
    ensures
        r == quality_settings(lower@),
{
    if crate::text::str_eq(lower, "low") {
        (1280, 72)
    } else if crate::text::str_eq(lower, "high") {
        (2560, 92)
    } else {
        (1920, 85)
    }
}

/// Longest screenshot edge and JPEG quality for a quality name, compared in lower case.
pub fn screenshot_quality_settings(value: &str) -> (r: (u32, u8))
    ensures
        r == quality_settings(crate::text::lowercase(value@)),
{
    let lower = crate::text::to_lowercase(value);
    quality_for_lowercase(&lower)
}

/// Whether the main window's state turns developer mode on (`developerMode`, off by default).
pub open spec fn developer_mode_of(state: JsonView) -> bool {
    match bool_of(field(state, "developerMode"@)) {
        Some(b) => b,
        None => false,
    }
}

/// Reads developer mode from the main window's state.
pub fn developer_mode_flag(state: &Json) -> (r: bool)
    ensures
        r == developer_mode_of(state@),
{
    match state.get("developerMode") {
        Some(v) => match v.as_bool() {
            Some(b) => b,
            None => false,
        },
        None => false,
    }
}

} // verus!
