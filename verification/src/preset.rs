use vstd::prelude::*;

use crate::codec::{hex_encode, hex_lower, sha256, sha256_digest};
use crate::json::{
    entries_view, field, items_view, lookup, lemma_items_view_push, Json, JsonNumber,
    JsonView, NumberView,
};
use crate::settings::{fish_audio_config_from_value, fish_config_of};
use crate::text::{decimal, decimal_string, prefix, push_char, take_chars};

verus! {

/// Characters of the directory key of a voice preset.
pub const PRESET_KEY_CHARS: usize = 24;

/// The error given when the Fish Audio key or voice is missing.
pub open spec fn missing_fish_credentials() -> Seq<char> {
    "请先填写 Fish Audio API Key 和音色 ID"@
}

/// The directory key of a voice preset: the first 24 hex digits of the SHA-256 digest
/// of `"{api_base}|{voice_id}"`.
pub open spec fn preset_key(api_base: Seq<char>, voice_id: Seq<char>) -> Seq<char> {
    prefix(
        hex_lower(sha256_digest(vstd::utf8::encode_utf8(api_base + seq!['|'] + voice_id))),
        PRESET_KEY_CHARS as nat,
    )
}

/// The directory key under which the voice preset of a service and voice is stored.
pub fn preset_directory_key(api_base: &str, voice_id: &str) -> (r: String)
    ensures
        r@ == preset_key(api_base@, voice_id@),
        r@.len() == PRESET_KEY_CHARS,
{
    let mut joined = String::new();
    joined.append(api_base);
    push_char(&mut joined, '|');
    joined.append(voice_id);
    assert(joined@ =~= api_base@ + seq!['|'] + voice_id@);
    let digest = sha256(joined.as_str().as_bytes());
    let hex = hex_encode(digest.as_slice());
    proof {
        law_preset_key_shape(digest@);
    }
    take_chars(&hex, PRESET_KEY_CHARS)
}

/// The three groups of preset phrases.
#[derive(Debug, Clone, Copy, PartialEq, Eq)]
pub enum PresetGroup {
    A,
    B,
    C,
}

/// Name of a group in the preset manifest.
pub open spec fn group_name(g: PresetGroup) -> Seq<char> {
    match g {
        PresetGroup::A => "groupA"@,
        PresetGroup::B => "groupB"@,
        PresetGroup::C => "groupC"@,
    }
}

/// Letter that starts the file names of a group.
pub open spec fn group_letter(g: PresetGroup) -> char {
    match g {
        PresetGroup::A => 'a',
        PresetGroup::B => 'b',
        PresetGroup::C => 'c',
    }
}

/// The phrases of a group.
pub open spec fn group_phrases(g: PresetGroup) -> Seq<Seq<char>> {
    match g {
        PresetGroup::A => seq!["嗯……"@, "哦？"@, "欸？"@, "哦！"@],
        PresetGroup::B => seq!["我想想……"@, "等一下啊……"@],
        PresetGroup::C => seq!["让我看一下啊……"@, "稍等，我看看……"@, "欸？我看到了……"@],
    }
}

/// File name of the `index`-th phrase of a group: `{letter}-{index}.mp3`.
pub open spec fn clip_file_name(g: PresetGroup, index: nat) -> Seq<char> {
    seq![group_letter(g), '-'] + decimal(index) + ".mp3"@
}

pub open spec fn strs_view(v: Seq<String>) -> Seq<Seq<char>> {
    v.map_values(|s: String| s@)
}

impl PresetGroup {
    /// Name of the group in the preset manifest.
    pub fn name(&self) -> (r: &'static str)
        ensures
            r@ == group_name(*self),
    {
        match self {
            PresetGroup::A => "groupA",
            PresetGroup::B => "groupB",
            PresetGroup::C => "groupC",
        }
    }

    /// The phrases of the group.
    pub fn phrases(&self) -> (r: Vec<String>)
        ensures
            strs_view(r@) == group_phrases(*self),
    {
        let r = match self {
            PresetGroup::A => vec![
                "嗯……".to_owned(),
                "哦？".to_owned(),
                "欸？".to_owned(),
                "哦！".to_owned(),
            ],
            PresetGroup::B => vec!["我想想……".to_owned(), "等一下啊……".to_owned()],
            PresetGroup::C => vec![
                "让我看一下啊……".to_owned(),
                "稍等，我看看……".to_owned(),
                "欸？我看到了……".to_owned(),
            ],
        };
        assert(strs_view(r@) =~= group_phrases(*self));
        r
    }

    /// File name of the `index`-th phrase of the group.
    pub fn file_name(&self, index: usize) -> (r: String)
        ensures
            r@ == clip_file_name(*self, index as nat),
    {
        let mut r = String::new();
        let letter = match self {
            PresetGroup::A => 'a',
            PresetGroup::B => 'b',
            PresetGroup::C => 'c',
        };
        push_char(&mut r, letter);
        push_char(&mut r, '-');
        let digits = decimal_string(index as u64);
        r.append(digits.as_str());
        r.append(".mp3");
        assert(r@ =~= clip_file_name(*self, index as nat));
        r
    }
}

/// One phrase to synthesize and the file that keeps its audio.
#[derive(Debug, Clone)]
pub struct PresetClip {
    pub group: PresetGroup,
    pub text: String,
    pub file_name: String,
}

/// What generating a voice preset takes: where it is stored, for which service and voice,
/// and the phrases to synthesize in order.
#[derive(Debug, Clone)]
pub struct PresetPlan {
    pub dir_key: String,
    pub api_base: String,
    pub voice_id: String,
    pub clips: Vec<PresetClip>,
}

/// The clips of a group, in phrase order.
pub open spec fn group_clips(g: PresetGroup) -> Seq<(PresetGroup, Seq<char>, Seq<char>)> {
    Seq::new(group_phrases(g).len(), |i: int| (g, group_phrases(g)[i], clip_file_name(g, i as nat)))
}

/// All clips of a preset: group A, then B, then C.
pub open spec fn all_clips() -> Seq<(PresetGroup, Seq<char>, Seq<char>)> {
    group_clips(PresetGroup::A) + group_clips(PresetGroup::B) + group_clips(PresetGroup::C)
}

pub open spec fn clips_view(v: Seq<PresetClip>) -> Seq<(PresetGroup, Seq<char>, Seq<char>)> {
    v.map_values(|c: PresetClip| (c.group, c.text@, c.file_name@))
}

fn push_group_clips(clips: &mut Vec<PresetClip>, g: PresetGroup)
    ensures
        clips_view(final(clips)@) == clips_view(old(clips)@) + group_clips(g),
{
    let phrases = g.phrases();
    let ghost start = clips_view(clips@);
    for i in 0..phrases.len()
        invariant
            strs_view(phrases@) == group_phrases(g),
            clips_view(clips@) == start + group_clips(g).take(i as int),
    {
        let clip = PresetClip { group: g, text: phrases[i].clone(), file_name: g.file_name(i) };
        let ghost before = clips@;
        clips.push(clip);
        proof {
            assert(clips_view(clips@) =~= clips_view(before).push((g, clip.text@, clip.file_name@)));
            assert(group_clips(g).take(i + 1) =~= group_clips(g).take(i as int).push(group_clips(g)[i as int]));
            assert(strs_view(phrases@)[i as int] == phrases@[i as int]@);
        }
    }
    assert(group_clips(g).take(phrases.len() as int) =~= group_clips(g));
}

/// Plans a voice preset for a Fish Audio configuration; the key and the voice must be set.
pub fn voice_preset_plan(config: &Json) -> (r: Result<PresetPlan, String>)
    ensures
        ({
            let (base, key, voice) = fish_config_of(config@);
            match r {
                Ok(plan) => {
                    &&& key.len() > 0 && voice.len() > 0
                    &&& plan.api_base@ == base
                    &&& plan.voice_id@ == voice
                    &&& plan.dir_key@ == preset_key(base, voice)
                    &&& clips_view(plan.clips@) == all_clips()
                },
                Err(e) => (key.len() == 0 || voice.len() == 0) && e@ == missing_fish_credentials(),
            }
        }),
{
    let cfg = fish_audio_config_from_value(config);
    if cfg.api_key.as_str().is_empty() || cfg.voice_id.as_str().is_empty() {
        return Err("请先填写 Fish Audio API Key 和音色 ID".to_owned());
    }
    let dir_key = preset_directory_key(&cfg.api_base, &cfg.voice_id);
    let mut clips: Vec<PresetClip> = Vec::new();
    assert(clips_view(clips@) =~= Seq::<(PresetGroup, Seq<char>, Seq<char>)>::empty());
    push_group_clips(&mut clips, PresetGroup::A);
    push_group_clips(&mut clips, PresetGroup::B);
    push_group_clips(&mut clips, PresetGroup::C);
    assert(clips_view(clips@) =~= all_clips());
    Ok(PresetPlan { dir_key, api_base: cfg.api_base, voice_id: cfg.voice_id, clips })
}

/// A JSON integer, as `json!` writes an `i64`.
pub open spec fn int_view(i: int) -> JsonView {
    if i >= 0 {
        JsonView::Number(NumberView::PosInt(i as u64))
    } else {
        JsonView::Number(NumberView::NegInt(i as i64))
    }
}

/// A JSON integer from an `i64`.
pub fn int_json(i: i64) -> (r: Json)
    ensures
        r@ == int_view(i as int),
{
    if i >= 0 {
        Json::Number(JsonNumber::PosInt(i as u64))
    } else {
        Json::Number(JsonNumber::NegInt(i))
    }
}

/// An array of JSON strings.
pub open spec fn str_array(v: Seq<Seq<char>>) -> JsonView {
    JsonView::Array(v.map_values(|s: Seq<char>| JsonView::Str(s)))
}

/// A JSON array of strings.
pub fn str_array_json(v: &Vec<String>) -> (r: Json)
    ensures
        r@ == str_array(strs_view(v@)),
{
    let mut items: Vec<Json> = Vec::new();
    for i in 0..v.len()
        invariant
            items_view(items@) == strs_view(v@).take(i as int).map_values(|s: Seq<char>| JsonView::Str(s)),
    {
        let ghost before = items@;
        let item = Json::Str(v[i].clone());
        items.push(item);
        proof {
            lemma_items_view_push(before, item);
            assert(strs_view(v@).take(i + 1) =~= strs_view(v@).take(i as int).push(v@[i as int]@));
            assert(strs_view(v@).take(i + 1).map_values(|s: Seq<char>| JsonView::Str(s))
                =~= strs_view(v@).take(i as int).map_values(|s: Seq<char>| JsonView::Str(s)).push(JsonView::Str(v@[i as int]@)));
        }
    }
    assert(strs_view(v@).take(v.len() as int) =~= strs_view(v@));
    Json::Array(items)
}

/// File names of the clips of one group, in order.
pub open spec fn group_file_names(g: PresetGroup) -> Seq<Seq<char>> {
    group_clips(g).map_values(|c: (PresetGroup, Seq<char>, Seq<char>)| c.2)
}

/// The manifest written beside the preset audio.
pub open spec fn manifest_view(api_base: Seq<char>, voice_id: Seq<char>, updated_at: int) -> JsonView {
    JsonView::Object(
        seq![
            ("apiBase"@, JsonView::Str(api_base)),
            ("voiceId"@, JsonView::Str(voice_id)),
            ("groupA"@, str_array(group_file_names(PresetGroup::A))),
            ("groupB"@, str_array(group_file_names(PresetGroup::B))),
            ("groupC"@, str_array(group_file_names(PresetGroup::C))),
            ("updatedAt"@, int_view(updated_at)),
        ],
    )
}

fn group_file_name_list(g: PresetGroup) -> (r: Vec<String>)
    ensures
        strs_view(r@) == group_file_names(g),
{
    let n = g.phrases().len();
    let mut r: Vec<String> = Vec::new();
    for i in 0..n
        invariant
            n == group_phrases(g).len(),
            strs_view(r@) == group_file_names(g).take(i as int),
    {
        let name = g.file_name(i);
        let ghost before = r@;
        r.push(name);
        assert(strs_view(r@) =~= strs_view(before).push(name@));
        assert(group_file_names(g).take(i + 1) =~= group_file_names(g).take(i as int).push(group_file_names(g)[i as int]));
    }
    assert(group_file_names(g).take(n as int) =~= group_file_names(g));
    r
}

/// The manifest of a generated preset, with the time it was written in milliseconds.
pub fn preset_manifest(plan: &PresetPlan, updated_at_ms: i64) -> (r: Json)
    ensures
        r@ == manifest_view(plan.api_base@, plan.voice_id@, updated_at_ms as int),
{
    let entries: Vec<(String, Json)> = vec![
        ("apiBase".to_owned(), Json::Str(plan.api_base.clone())),
        ("voiceId".to_owned(), Json::Str(plan.voice_id.clone())),
        ("groupA".to_owned(), str_array_json(&group_file_name_list(PresetGroup::A))),
        ("groupB".to_owned(), str_array_json(&group_file_name_list(PresetGroup::B))),
        ("groupC".to_owned(), str_array_json(&group_file_name_list(PresetGroup::C))),
        ("updatedAt".to_owned(), int_json(updated_at_ms)),
    ];
    proof {
        reveal_with_fuel(entries_view, 7);
    }
    assert(entries_view(entries@) =~= manifest_view(plan.api_base@, plan.voice_id@, updated_at_ms as int)->Object_0);
    Json::Object(entries)
}

/// The reply to a finished preset generation: `{"ok": true, "count": 9}`.
pub open spec fn generated_reply() -> JsonView {
    JsonView::Object(seq![("ok"@, JsonView::Bool(true)), ("count"@, int_view(all_clips().len() as int))])
}

/// The reply to a finished preset generation: how many clips a preset holds.
pub fn preset_generated_reply() -> (r: Json)
    ensures
        r@ == generated_reply(),
{
    let a = PresetGroup::A.phrases();
    let b = PresetGroup::B.phrases();
    let c = PresetGroup::C.phrases();
    assert(a@.len() == strs_view(a@).len() && b@.len() == strs_view(b@).len() && c@.len() == strs_view(c@).len());
    let count = a.len() + b.len() + c.len();
    assert(count == all_clips().len());
    let entries: Vec<(String, Json)> = vec![
        ("ok".to_owned(), Json::Bool(true)),
        ("count".to_owned(), int_json(count as i64)),
    ];
    proof {
        reveal_with_fuel(entries_view, 3);
    }
    assert(entries_view(entries@) =~= generated_reply()->Object_0);
    Json::Object(entries)
}

/// Where a stored preset is looked up: nowhere without a voice, otherwise under the
/// directory key of the service and voice.
pub open spec fn preset_location(config: JsonView) -> Option<Seq<char>> {
    let (base, _key, voice) = fish_config_of(config);
    if voice.len() == 0 {
        None
    } else {
        Some(preset_key(base, voice))
    }
}

/// The directory key of the stored preset of a configuration, if it names a voice.
pub fn stored_preset_key(config: &Json) -> (r: Option<String>)
    ensures
        match r {
            Some(k) => preset_location(config@) == Some(k@),
            None => preset_location(config@) is None,
        },
{
    let cfg = fish_audio_config_from_value(config);
    if cfg.voice_id.as_str().is_empty() {
        None
    } else {
        Some(preset_directory_key(&cfg.api_base, &cfg.voice_id))
    }
}

/// The texts of a list of JSON values when all of them are strings.
pub open spec fn all_strs(items: Seq<JsonView>) -> Option<Seq<Seq<char>>>
    decreases items.len(),
{
    if items.len() == 0 {
        Some(Seq::empty())
    } else {
        match (all_strs(items.drop_last()), items.last()) {
            (Some(v), JsonView::Str(s)) => Some(v.push(s)),
            _ => None,
        }
    }
}

proof fn lemma_all_strs_prefix_none(s: Seq<JsonView>, i: int)
    requires
        0 <= i <= s.len(),
        all_strs(s.take(i)) is None,
    ensures
        all_strs(s) is None,
    decreases s.len() - i,
{
    if i < s.len() {
        assert(s.take(i + 1).drop_last() =~= s.take(i));
        lemma_all_strs_prefix_none(s, i + 1);
    } else {
        assert(s.take(i) =~= s);
    }
}

/// The file names a manifest lists for a group: none listed when the group is missing,
/// nothing usable when the group is not an array of strings.
pub open spec fn listed_files(manifest: JsonView, group: Seq<char>) -> Option<Seq<Seq<char>>> {
    match field(manifest, group) {
        None => Some(Seq::empty()),
        Some(JsonView::Array(items)) => all_strs(items),
        Some(_) => None,
    }
}

/// The file names a preset manifest lists for a group.
pub fn preset_group_files(manifest: &Json, group: PresetGroup) -> (r: Option<Vec<String>>)
    ensures
        match r {
            Some(v) => listed_files(manifest@, group_name(group)) == Some(strs_view(v@)),
            None => listed_files(manifest@, group_name(group)) is None,
        },
{
    let items = match manifest.get(group.name()) {
        None => {
            let empty: Vec<String> = Vec::new();
            assert(strs_view(empty@) =~= Seq::<Seq<char>>::empty());
            return Some(empty);
        },
        Some(Json::Array(items)) => items,
        Some(_) => return None,
    };
    let mut names: Vec<String> = Vec::new();
    assert(items_view(items@).take(0) =~= Seq::<JsonView>::empty());
    assert(strs_view(names@) =~= Seq::<Seq<char>>::empty());
    proof {
        crate::json::lemma_items_view_len(items@);
    }
    for i in 0..items.len()
        invariant
            items_view(items@).len() == items.len(),
            field(manifest@, group_name(group)) == Some(JsonView::Array(items_view(items@))),
            all_strs(items_view(items@).take(i as int)) == Some(strs_view(names@)),
    {
        proof {
            crate::json::lemma_items_view_index(items@, i as int);
            assert(items_view(items@).take(i + 1).drop_last() =~= items_view(items@).take(i as int));
        }
        match &items[i] {
            Json::Str(s) => {
                let ghost before = names@;
                names.push(s.clone());
                assert(strs_view(names@) =~= strs_view(before).push(s@));
            },
            _ => {
                proof {
                    lemma_all_strs_prefix_none(items_view(items@), i + 1);
                }
                return None;
            },
        }
    }
    assert(items_view(items@).take(items.len() as int) =~= items_view(items@));
    Some(names)
}

/// A group of the stored-preset reply: the clips' base64 texts, or `null`.
pub open spec fn group_reply(g: Option<Seq<Seq<char>>>) -> JsonView {
    match g {
        Some(v) => str_array(v),
        None => JsonView::Null,
    }
}

/// The reply with the audio of a stored preset, one entry per group.
pub open spec fn stored_reply(
    a: Option<Seq<Seq<char>>>,
    b: Option<Seq<Seq<char>>>,
    c: Option<Seq<Seq<char>>>,
) -> JsonView {
    JsonView::Object(
        seq![("groupA"@, group_reply(a)), ("groupB"@, group_reply(b)), ("groupC"@, group_reply(c))],
    )
}

pub open spec fn opt_strs_view(o: Option<Vec<String>>) -> Option<Seq<Seq<char>>> {
    match o {
        Some(v) => Some(strs_view(v@)),
        None => None,
    }
}

fn group_reply_json(g: &Option<Vec<String>>) -> (r: Json)
    ensures
        r@ == group_reply(opt_strs_view(*g)),
{
    match g {
        Some(v) => str_array_json(v),
        None => Json::Null,
    }
}

/// The reply with the audio of a stored preset: for each group the base64 texts of its
/// clips, or `null` when the group could not be read.
pub fn stored_preset_reply(
    a: &Option<Vec<String>>,
    b: &Option<Vec<String>>,
    c: &Option<Vec<String>>,
) -> (r: Json)
    ensures
        r@ == stored_reply(opt_strs_view(*a), opt_strs_view(*b), opt_strs_view(*c)),
{
    let entries: Vec<(String, Json)> = vec![
        ("groupA".to_owned(), group_reply_json(a)),
        ("groupB".to_owned(), group_reply_json(b)),
        ("groupC".to_owned(), group_reply_json(c)),
    ];
    proof {
        reveal_with_fuel(entries_view, 4);
    }
    assert(entries_view(entries@) =~= stored_reply(opt_strs_view(*a), opt_strs_view(*b), opt_strs_view(*c))->Object_0);
    Json::Object(entries)
}

// ---------------------------------------------------------------------------
// Laws.
// ---------------------------------------------------------------------------

/// A lower-case hex digit.
pub open spec fn is_hex_lower(c: char) -> bool {
    ('0' <= c <= '9') || ('a' <= c <= 'f')
}

proof fn lemma_hex_lower_shape(bs: Seq<u8>)
    ensures
        hex_lower(bs).len() == 2 * bs.len(),
        forall|i: int| 0 <= i < hex_lower(bs).len() ==> is_hex_lower(#[trigger] hex_lower(bs)[i]),
    decreases bs.len(),
{
    if bs.len() > 0 {
        lemma_hex_lower_shape(bs.drop_last());
        let b = bs.last() as int;
        assert(0 <= b / 16 < 16 && 0 <= b % 16 < 16);
    }
}

/// The directory key of a preset made from a 32-byte digest is 24 lower-case hex digits.
pub proof fn law_preset_key_shape(digest: Seq<u8>)
    requires
        digest.len() == 32,
    ensures
        prefix(hex_lower(digest), PRESET_KEY_CHARS as nat).len() == PRESET_KEY_CHARS,
        forall|i: int|
            0 <= i < PRESET_KEY_CHARS ==> is_hex_lower(
                #[trigger] prefix(hex_lower(digest), PRESET_KEY_CHARS as nat)[i],
            ),
{
    lemma_hex_lower_shape(digest);
}

proof fn lemma_all_strs_of_strs(v: Seq<Seq<char>>)
    ensures
        all_strs(v.map_values(|s: Seq<char>| JsonView::Str(s))) == Some(v),
    decreases v.len(),
{
    if v.len() > 0 {
        let d = v.drop_last();
        lemma_all_strs_of_strs(d);
        let m = v.map_values(|s: Seq<char>| JsonView::Str(s));
        assert(m.drop_last() =~= d.map_values(|s: Seq<char>| JsonView::Str(s)));
        assert(d.push(v.last()) =~= v);
    } else {
        assert(v.map_values(|s: Seq<char>| JsonView::Str(s)) =~= Seq::<JsonView>::empty());
        assert(v =~= Seq::<Seq<char>>::empty());
    }
}

/// Reading back the manifest of a generated preset gives, for each group, the file names
/// its clips were written to, in order.
pub proof fn law_manifest_lists_clip_files(api_base: Seq<char>, voice_id: Seq<char>, updated_at: int, g: PresetGroup)
    ensures
        listed_files(manifest_view(api_base, voice_id, updated_at), group_name(g)) == Some(group_file_names(g)),
        group_file_names(g) == group_clips(g).map_values(|c: (PresetGroup, Seq<char>, Seq<char>)| c.2),
{
    reveal_strlit("apiBase");
    reveal_strlit("voiceId");
    reveal_strlit("groupA");
    reveal_strlit("groupB");
    reveal_strlit("groupC");
    reveal_strlit("updatedAt");
    lemma_all_strs_of_strs(group_file_names(g));
    let es = manifest_view(api_base, voice_id, updated_at)->Object_0;
    let e5 = es.take(5);
    let e4 = es.take(4);
    let e3 = es.take(3);
    assert(es.drop_last() =~= e5);
    assert(e5.drop_last() =~= e4);
    assert(e4.drop_last() =~= e3);
    assert("updatedAt"@.len() == 9);
    assert(group_name(g).len() == 6);
    assert("updatedAt"@ != group_name(g));
    assert(lookup(es, group_name(g)) == lookup(e5, group_name(g)));
    match g {
        PresetGroup::C => {
            assert(lookup(e5, group_name(g)) == Some(str_array(group_file_names(g))));
        },
        PresetGroup::B => {
            assert("groupC"@[5] != "groupB"@[5]);
            assert(lookup(e5, group_name(g)) == lookup(e4, group_name(g)));
            assert(lookup(e4, group_name(g)) == Some(str_array(group_file_names(g))));
        },
        PresetGroup::A => {
            assert("groupB"@[5] != "groupA"@[5]);
            assert("groupC"@[5] != "groupA"@[5]);
            assert(lookup(e5, group_name(g)) == lookup(e4, group_name(g)));
            assert(lookup(e4, group_name(g)) == lookup(e3, group_name(g)));
            assert(lookup(e3, group_name(g)) == Some(str_array(group_file_names(g))));
        },
    }
}

/// A preset generated for a configuration is found again by any configuration with the
/// same service address (up to trailing slashes) and the same trimmed voice, whatever its
/// key: under the directory key the generation used.
pub proof fn law_stored_preset_found(config: JsonView, other: JsonView)
    requires
        fish_config_of(config).1.len() > 0,
        fish_config_of(config).2.len() > 0,
        fish_config_of(other).0 == fish_config_of(config).0,
        fish_config_of(other).2 == fish_config_of(config).2,
    ensures
        preset_location(other) == Some(preset_key(fish_config_of(config).0, fish_config_of(config).2)),
{
}

} // verus!
