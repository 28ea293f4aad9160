use vstd::prelude::*;

use crate::text::{
    blank, is_blank, lemma_prefix_idempotent, lemma_trim_idempotent, prefix, str_eq, take_chars, trim,
    trim_string,
};

verus! {

/// Most characters a turn's content keeps.
pub const MAX_CONTENT_CHARS: usize = 200_000;

/// Most turns a conversation keeps (the most recent ones).
pub const MAX_TURNS: usize = 500;

/// Most characters an attachment's name keeps.
pub const MAX_NAME_CHARS: usize = 200;

/// Most characters an attachment's type keeps.
pub const MAX_KIND_CHARS: usize = 100;

/// Most characters an attachment's data URL keeps.
pub const MAX_DATA_URL_CHARS: usize = 30 * 1024 * 1024;

/// A file attached to a chat turn.
#[derive(Debug, Clone, Default)]
pub struct Attachment {
    pub name: String,
    pub kind: String,
    pub size: u64,
    pub original_size: u64,
    pub is_image: bool,
    pub is_text: bool,
    pub full_data_url: String,
}

/// One turn of a conversation.
#[derive(Debug, Clone, Default)]
pub struct Turn {
    pub role: String,
    pub content: String,
    pub voice_record_id: Option<String>,
    pub attachments: Option<Vec<Attachment>>,
}

/// Mathematical value of an [`Attachment`].
pub struct AttachmentView {
    pub name: Seq<char>,
    pub kind: Seq<char>,
    pub size: u64,
    pub original_size: u64,
    pub is_image: bool,
    pub is_text: bool,
    pub full_data_url: Seq<char>,
}

/// Mathematical value of a [`Turn`].
pub struct TurnView {
    pub role: Seq<char>,
    pub content: Seq<char>,
    pub voice_record_id: Option<Seq<char>>,
    pub attachments: Option<Seq<AttachmentView>>,
}

impl View for Attachment {
    type V = AttachmentView;

    open spec fn view(&self) -> AttachmentView {
        AttachmentView {
            name: self.name@,
            kind: self.kind@,
            size: self.size,
            original_size: self.original_size,
            is_image: self.is_image,
            is_text: self.is_text,
            full_data_url: self.full_data_url@,
        }
    }
}

pub open spec fn attachments_view(v: Seq<Attachment>) -> Seq<AttachmentView> {
    v.map_values(|a: Attachment| a@)
}

pub open spec fn opt_string_view(o: Option<String>) -> Option<Seq<char>> {
    match o {
        Some(s) => Some(s@),
        None => None,
    }
}

impl View for Turn {
    type V = TurnView;

    open spec fn view(&self) -> TurnView {
        TurnView {
            role: self.role@,
            content: self.content@,
            voice_record_id: opt_string_view(self.voice_record_id),
            attachments: match self.attachments {
                Some(v) => Some(attachments_view(v@)),
                None => None,
            },
        }
    }
}

pub open spec fn turns_view(v: Seq<Turn>) -> Seq<TurnView> {
    v.map_values(|t: Turn| t@)
}

pub open spec fn opt_turns_view(o: Option<Vec<Turn>>) -> Option<Seq<TurnView>> {
    match o {
        Some(v) => Some(turns_view(v@)),
        None => None,
    }
}

// ---------------------------------------------------------------------------
// What sanitizing a conversation means.
// ---------------------------------------------------------------------------

/// An attachment survives when it is an image with data.
pub open spec fn keeps_attachment(a: AttachmentView) -> bool {
    a.is_image && a.full_data_url.len() > 0
}

/// A surviving attachment: bounded texts, an original size no smaller than its size,
/// and flagged as an image, not as text.
pub open spec fn clean_attachment(a: AttachmentView) -> AttachmentView {
    AttachmentView {
        name: prefix(a.name, MAX_NAME_CHARS as nat),
        kind: prefix(a.kind, MAX_KIND_CHARS as nat),
        size: a.size,
        original_size: if a.original_size >= a.size { a.original_size } else { a.size },
        is_image: true,
        is_text: false,
        full_data_url: prefix(a.full_data_url, MAX_DATA_URL_CHARS as nat),
    }
}

/// The attachments a user turn keeps, in order.
pub open spec fn clean_attachments(s: Seq<AttachmentView>) -> Seq<AttachmentView> {
    s.filter(|a: AttachmentView| keeps_attachment(a)).map_values(|a: AttachmentView| clean_attachment(a))
}

/// An assistant's voice record id, trimmed, and dropped when blank.
pub open spec fn clean_voice_id(v: Option<Seq<char>>) -> Option<Seq<char>> {
    match v {
        Some(s) => if trim(s).len() > 0 { Some(trim(s)) } else { None },
        None => None,
    }
}

/// A turn after cleaning: content bounded; an assistant turn keeps a trimmed voice record id
/// and no attachments; a user turn keeps only its image attachments.
pub open spec fn clean_turn(t: TurnView) -> TurnView {
    let assistant = t.role == "assistant"@;
    let user = t.role == "user"@;
    TurnView {
        role: t.role,
        content: prefix(t.content, MAX_CONTENT_CHARS as nat),
        voice_record_id: if assistant { clean_voice_id(t.voice_record_id) } else { t.voice_record_id },
        attachments: if assistant {
            None
        } else if user {
            match t.attachments {
                Some(a) => Some(clean_attachments(a)),
                None => None,
            }
        } else {
            t.attachments
        },
    }
}

/// Only user and assistant turns take part in a conversation.
pub open spec fn keeps_role(t: TurnView) -> bool {
    t.role == "user"@ || t.role == "assistant"@
}

/// A turn whose content is not blank.
pub open spec fn has_content(t: TurnView) -> bool {
    !blank(t.content)
}

/// The cleaned turns with a kept role and content, in order.
pub open spec fn kept_turns(ts: Seq<TurnView>) -> Seq<TurnView> {
    ts.filter(|t: TurnView| keeps_role(t)).map_values(|t: TurnView| clean_turn(t)).filter(
        |t: TurnView| has_content(t),
    )
}

/// The last `n` elements of `s` (all of `s` when it is shorter).
pub open spec fn last_n<A>(s: Seq<A>, n: nat) -> Seq<A> {
    if s.len() <= n {
        s
    } else {
        s.skip(s.len() - n)
    }
}

/// A sanitized conversation: the most recent `MAX_TURNS` kept turns; nothing when absent.
pub open spec fn sanitized(turns: Option<Seq<TurnView>>) -> Seq<TurnView> {
    match turns {
        Some(ts) => last_n(kept_turns(ts), MAX_TURNS as nat),
        None => Seq::empty(),
    }
}

// ---------------------------------------------------------------------------
// Implementation.
// ---------------------------------------------------------------------------

proof fn lemma_kept_turns_push(s: Seq<TurnView>, x: TurnView)
    ensures
        kept_turns(s.push(x)) == if keeps_role(x) && has_content(clean_turn(x)) {
            kept_turns(s).push(clean_turn(x))
        } else {
            kept_turns(s)
        },
{
    let p = |t: TurnView| keeps_role(t);
    let f = |t: TurnView| clean_turn(t);
    let q = |t: TurnView| has_content(t);
    let a = s.filter(p);
    s.lemma_filter_push(x, p);
    if keeps_role(x) {
        assert(a.push(x).map_values(f) =~= a.map_values(f).push(clean_turn(x)));
        a.map_values(f).lemma_filter_push(clean_turn(x), q);
    }
}

proof fn lemma_clean_attachments_push(s: Seq<AttachmentView>, x: AttachmentView)
    ensures
        clean_attachments(s.push(x)) == if keeps_attachment(x) {
            clean_attachments(s).push(clean_attachment(x))
        } else {
            clean_attachments(s)
        },
{
    let p = |a: AttachmentView| keeps_attachment(a);
    let f = |a: AttachmentView| clean_attachment(a);
    let a = s.filter(p);
    s.lemma_filter_push(x, p);
    if keeps_attachment(x) {
        assert(a.push(x).map_values(f) =~= a.map_values(f).push(clean_attachment(x)));
    }
}

fn max_u64(a: u64, b: u64) -> (r: u64)
    ensures
        r == if a >= b { a } else { b },
{
    if a >= b { a } else { b }
}

/// The image attachments of a user turn, cleaned.
fn clean_attachment_list(v: &Vec<Attachment>) -> (r: Vec<Attachment>)
    ensures
        attachments_view(r@) == clean_attachments(attachments_view(v@)),
{
    let mut r: Vec<Attachment> = Vec::new();
    let n = v.len();
    assert(attachments_view(v@).take(0) =~= Seq::<AttachmentView>::empty());
    assert(attachments_view(r@) =~= clean_attachments(Seq::<AttachmentView>::empty()));
    for i in 0..n
        invariant
            n == v.len(),
            attachments_view(r@) == clean_attachments(attachments_view(v@).take(i as int)),
    {
        let a = &v[i];
        let ghost before = attachments_view(v@).take(i as int);
        proof {
            assert(attachments_view(v@).take(i + 1) =~= before.push(a@));
            lemma_clean_attachments_push(before, a@);
        }
        if a.is_image && !a.full_data_url.as_str().is_empty() {
            let c = Attachment {
                name: take_chars(&a.name, MAX_NAME_CHARS),
                kind: take_chars(&a.kind, MAX_KIND_CHARS),
                size: a.size,
                original_size: max_u64(a.original_size, a.size),
                is_image: true,
                is_text: false,
                full_data_url: take_chars(&a.full_data_url, MAX_DATA_URL_CHARS),
            };
            let ghost old_r = r@;
            r.push(c);
            assert(attachments_view(r@) =~= attachments_view(old_r).push(c@));
        }
    }
    assert(attachments_view(v@).take(n as int) =~= attachments_view(v@));
    r
}

fn copy_opt_string(o: &Option<String>) -> (r: Option<String>)
    ensures
        opt_string_view(r) == opt_string_view(*o),
{
    match o {
        Some(s) => Some(s.clone()),
        None => None,
    }
}

fn copy_attachment(a: &Attachment) -> (r: Attachment)
    ensures
        r@ == a@,
{
    Attachment {
        name: a.name.clone(),
        kind: a.kind.clone(),
        size: a.size,
        original_size: a.original_size,
        is_image: a.is_image,
        is_text: a.is_text,
        full_data_url: a.full_data_url.clone(),
    }
}

fn copy_attachments(v: &Vec<Attachment>) -> (r: Vec<Attachment>)
    ensures
        attachments_view(r@) == attachments_view(v@),
{
    let mut r: Vec<Attachment> = Vec::new();
    for i in 0..v.len()
        invariant
            attachments_view(r@) == attachments_view(v@).take(i as int),
    {
        let ghost old_r = r@;
        let c = copy_attachment(&v[i]);
        r.push(c);
        assert(attachments_view(r@) =~= attachments_view(old_r).push(c@));
        assert(attachments_view(v@).take(i + 1) =~= attachments_view(v@).take(i as int).push(v@[i as int]@));
    }
    assert(attachments_view(v@).take(v.len() as int) =~= attachments_view(v@));
    r
}

impl Turn {
    /// A copy of this turn with the same value.
    pub fn copy(&self) -> (r: Turn)
        ensures
            r@ == self@,
    {
        Turn {
            role: self.role.clone(),
            content: self.content.clone(),
            voice_record_id: copy_opt_string(&self.voice_record_id),
            attachments: match &self.attachments {
                Some(v) => Some(copy_attachments(v)),
                None => None,
            },
        }
    }
}

/// A copy of a list of turns with the same value.
pub fn copy_turns(v: &Vec<Turn>) -> (r: Vec<Turn>)
    ensures
        turns_view(r@) == turns_view(v@),
{
    let mut r: Vec<Turn> = Vec::new();
    for i in 0..v.len()
        invariant
            turns_view(r@) == turns_view(v@).take(i as int),
    {
        let ghost old_r = r@;
        let c = v[i].copy();
        r.push(c);
        assert(turns_view(r@) =~= turns_view(old_r).push(c@));
        assert(turns_view(v@).take(i + 1) =~= turns_view(v@).take(i as int).push(v@[i as int]@));
    }
    assert(turns_view(v@).take(v.len() as int) =~= turns_view(v@));
    r
}

/// One turn after cleaning (whatever its role).
pub fn clean_turn_of(t: &Turn) -> (r: Turn)
    ensures
        r@ == clean_turn(t@),
{
    let content = take_chars(&t.content, MAX_CONTENT_CHARS);
    if str_eq(&t.role, "assistant") {
        let voice = match &t.voice_record_id {
            Some(v) => {
                let trimmed = trim_string(v);
                if !trimmed.as_str().is_empty() {
                    Some(trimmed)
                } else {
                    None
                }
            },
            None => None,
        };
        Turn { role: t.role.clone(), content, voice_record_id: voice, attachments: None }
    } else {
        let attachments = if str_eq(&t.role, "user") {
            match &t.attachments {
                Some(v) => Some(clean_attachment_list(v)),
                None => None,
            }
        } else {
            match &t.attachments {
                Some(v) => Some(copy_attachments(v)),
                None => None,
            }
        };
        Turn {
            role: t.role.clone(),
            content,
            voice_record_id: copy_opt_string(&t.voice_record_id),
            attachments,
        }
    }
}

/// Cleans a conversation handed over by a window: keeps user and assistant turns whose
/// content is not blank once bounded, cleans each, and keeps the most recent `MAX_TURNS`.
pub fn sanitize_turns(turns: Option<Vec<Turn>>) -> (r: Vec<Turn>)
    ensures
        turns_view(r@) == sanitized(opt_turns_view(turns)),
        r.len() <= MAX_TURNS,
{
    let ts = match turns {
        Some(ts) => ts,
        None => {
            let empty: Vec<Turn> = Vec::new();
            assert(turns_view(empty@) =~= Seq::<TurnView>::empty());
            return empty;
        },
    };
    let mut kept: Vec<Turn> = Vec::new();
    let n = ts.len();
    assert(turns_view(ts@).take(0) =~= Seq::<TurnView>::empty());
    assert(turns_view(kept@) =~= kept_turns(Seq::<TurnView>::empty()));
    for i in 0..n
        invariant
            n == ts.len(),
            turns_view(kept@) == kept_turns(turns_view(ts@).take(i as int)),
    {
        let t = &ts[i];
        let ghost before = turns_view(ts@).take(i as int);
        proof {
            assert(turns_view(ts@).take(i + 1) =~= before.push(t@));
            lemma_kept_turns_push(before, t@);
        }
        if str_eq(&t.role, "user") || str_eq(&t.role, "assistant") {
            let c = clean_turn_of(t);
            if !is_blank(&c.content) {
                let ghost old_kept = kept@;
                kept.push(c);
                assert(turns_view(kept@) =~= turns_view(old_kept).push(c@));
            }
        }
    }
    assert(turns_view(ts@).take(n as int) =~= turns_view(ts@));
    let len = kept.len();
    if len > MAX_TURNS {
        let ghost all = kept@;
        let tail = kept.split_off(len - MAX_TURNS);
        assert(turns_view(tail@) =~= turns_view(all).skip(len - MAX_TURNS));
        tail
    } else {
        kept
    }
}

// ---------------------------------------------------------------------------
// Laws.
// ---------------------------------------------------------------------------

proof fn lemma_clean_attachment_fixed(a: AttachmentView)
    ensures
        keeps_attachment(a) ==> keeps_attachment(clean_attachment(a)),
        keeps_attachment(a) ==> clean_attachment(clean_attachment(a)) == clean_attachment(a),
{
    lemma_prefix_idempotent(a.name, MAX_NAME_CHARS as nat);
    lemma_prefix_idempotent(a.kind, MAX_KIND_CHARS as nat);
    lemma_prefix_idempotent(a.full_data_url, MAX_DATA_URL_CHARS as nat);
}

/// Filtering by a predicate every element meets changes nothing.
pub proof fn lemma_filter_all<A>(s: Seq<A>, p: spec_fn(A) -> bool)
    requires
        forall|i: int| 0 <= i < s.len() ==> p(s[i]),
    ensures
        s.filter(p) == s,
    decreases s.len(),
{
    if s.len() > 0 {
        let d = s.drop_last();
        assert forall|i: int| 0 <= i < d.len() implies p(d[i]) by {
            assert(d[i] == s[i]);
        }
        lemma_filter_all(d, p);
        assert(d.push(s.last()) =~= s);
        d.lemma_filter_push(s.last(), p);
    }
}

proof fn lemma_clean_attachments_idempotent(s: Seq<AttachmentView>)
    ensures
        clean_attachments(clean_attachments(s)) == clean_attachments(s),
{
    let p = |a: AttachmentView| keeps_attachment(a);
    let f = |a: AttachmentView| clean_attachment(a);
    let k = s.filter(p);
    let c = k.map_values(f);
    broadcast use vstd::seq_lib::group_filter_ensures;

    assert forall|i: int| 0 <= i < c.len() implies p(c[i]) && f(c[i]) == c[i] by {
        assert(p(k[i]));
        lemma_clean_attachment_fixed(k[i]);
    }
    lemma_filter_all(c, p);
    assert(c.filter(p).map_values(f) =~= c);
}

proof fn lemma_clean_turn_idempotent(t: TurnView)
    ensures
        clean_turn(clean_turn(t)) == clean_turn(t),
        keeps_role(clean_turn(t)) == keeps_role(t),
{
    lemma_prefix_idempotent(t.content, MAX_CONTENT_CHARS as nat);
    match t.voice_record_id {
        Some(v) => {
            lemma_trim_idempotent(v);
        },
        None => {},
    }
    match t.attachments {
        Some(a) => {
            lemma_clean_attachments_idempotent(a);
        },
        None => {},
    }
}

/// Every kept turn has a kept role, content, and is its own cleaning.
proof fn lemma_kept_turns_shape(ts: Seq<TurnView>)
    ensures
        forall|i: int|
            0 <= i < kept_turns(ts).len() ==> {
                let t = #[trigger] kept_turns(ts)[i];
                keeps_role(t) && has_content(t) && clean_turn(t) == t
            },
{
    let p = |t: TurnView| keeps_role(t);
    let f = |t: TurnView| clean_turn(t);
    let q = |t: TurnView| has_content(t);
    let a = ts.filter(p);
    let b = a.map_values(f);
    broadcast use vstd::seq_lib::group_filter_ensures;

    assert forall|i: int| 0 <= i < b.len() implies keeps_role(b[i]) && clean_turn(b[i]) == b[i] by {
        assert(p(a[i]));
        lemma_clean_turn_idempotent(a[i]);
    }
    assert forall|i: int|
        0 <= i < kept_turns(ts).len() implies {
            let t = #[trigger] kept_turns(ts)[i];
            keeps_role(t) && has_content(t) && clean_turn(t) == t
        } by {
        let t = kept_turns(ts)[i];
        assert(q(t));
        assert(b.filter(q).contains(t));
        b.lemma_filter_contains_rev(q, t);
        let j = choose|j: int| 0 <= j < b.len() && b[j] == t;
    }
}

/// Sanitizing a sanitized conversation changes nothing: every turn of the result
/// is a user or assistant turn with content, already cleaned, and there are at most
/// `MAX_TURNS` of them.
pub proof fn law_sanitize_idempotent(turns: Option<Seq<TurnView>>)
    ensures
        sanitized(Some(sanitized(turns))) == sanitized(turns),
        sanitized(turns).len() <= MAX_TURNS,
        forall|i: int|
            0 <= i < sanitized(turns).len() ==> {
                let t = #[trigger] sanitized(turns)[i];
                keeps_role(t) && !blank(t.content) && t.content.len() <= MAX_CONTENT_CHARS
            },
{
    let r = sanitized(turns);
    match turns {
        None => {
            assert(kept_turns(Seq::<TurnView>::empty()) =~= Seq::<TurnView>::empty());
        },
        Some(ts) => {
            let k = kept_turns(ts);
            lemma_kept_turns_shape(ts);
            assert forall|i: int| 0 <= i < r.len() implies {
                let t = #[trigger] r[i];
                keeps_role(t) && has_content(t) && clean_turn(t) == t
            } by {
                if k.len() > MAX_TURNS {
                    assert(r[i] == k[i + (k.len() - MAX_TURNS)]);
                } else {
                    assert(r[i] == k[i]);
                }
            }
            let p = |t: TurnView| keeps_role(t);
            let f = |t: TurnView| clean_turn(t);
            let q = |t: TurnView| has_content(t);
            lemma_filter_all(r, p);
            assert(r.map_values(f) =~= r);
            lemma_filter_all(r, q);
            assert(kept_turns(r) == r);
            assert forall|i: int| 0 <= i < r.len() implies #[trigger] r[i].content.len() <= MAX_CONTENT_CHARS by {
                lemma_prefix_idempotent(r[i].content, MAX_CONTENT_CHARS as nat);
                assert(clean_turn(r[i]).content == prefix(r[i].content, MAX_CONTENT_CHARS as nat));
            }
        },
    }
}

/// The positions of the input turns a conversation keeps, in order.
pub open spec fn kept_indices(ts: Seq<TurnView>) -> Seq<int>
    decreases ts.len(),
{
    if ts.len() == 0 {
        Seq::empty()
    } else {
        let rest = kept_indices(ts.drop_last());
        if keeps_role(ts.last()) && has_content(clean_turn(ts.last())) {
            rest.push(ts.len() - 1)
        } else {
            rest
        }
    }
}

proof fn lemma_kept_indices(ts: Seq<TurnView>)
    ensures
        kept_indices(ts).len() == kept_turns(ts).len(),
        kept_indices(ts).len() <= ts.len(),
        forall|i: int|
            0 <= i < kept_indices(ts).len() ==> {
                let j = #[trigger] kept_indices(ts)[i];
                &&& 0 <= j < ts.len()
                &&& keeps_role(ts[j])
                &&& kept_turns(ts)[i] == clean_turn(ts[j])
            },
        forall|i: int, k: int| 0 <= i < k < kept_indices(ts).len() ==> kept_indices(ts)[i] < kept_indices(ts)[k],
    decreases ts.len(),
{
    if ts.len() > 0 {
        let d = ts.drop_last();
        lemma_kept_indices(d);
        assert(d.push(ts.last()) =~= ts);
        lemma_kept_turns_push(d, ts.last());
        let ki = kept_indices(ts);
        let kd = kept_indices(d);
        assert forall|i: int| 0 <= i < ki.len() implies {
            let j = #[trigger] ki[i];
            &&& 0 <= j < ts.len()
            &&& keeps_role(ts[j])
            &&& kept_turns(ts)[i] == clean_turn(ts[j])
        } by {
            if i < kd.len() {
                assert(ki[i] == kd[i]);
                assert(ts[kd[i]] == d[kd[i]]);
            }
        }
    } else {
        assert(kept_turns(ts) =~= Seq::<TurnView>::empty());
    }
}

/// `r[i]` is the cleaning of the user or assistant turn `ts[idx[i]]`, the positions `idx`
/// increasing.
pub open spec fn traces_input(ts: Seq<TurnView>, r: Seq<TurnView>, idx: Seq<int>) -> bool {
    &&& idx.len() == r.len()
    &&& forall|i: int|
        0 <= i < idx.len() ==> {
            let j = #[trigger] idx[i];
            &&& 0 <= j < ts.len()
            &&& keeps_role(ts[j])
            &&& r[i] == clean_turn(ts[j])
        }
    &&& forall|i: int, k: int| 0 <= i < k < idx.len() ==> idx[i] < idx[k]
}

/// Each turn of a sanitized conversation is the cleaning of a user or assistant turn of
/// the input, taken in order (so there are no more of them than input turns), and an
/// assistant turn keeps no attachments and only a trimmed, non-blank voice record id.
pub proof fn law_sanitize_traces_input(ts: Seq<TurnView>)
    ensures
        sanitized(Some(ts)).len() <= ts.len(),
        exists|idx: Seq<int>| #[trigger] traces_input(ts, sanitized(Some(ts)), idx),
        forall|i: int|
            0 <= i < sanitized(Some(ts)).len() && (#[trigger] sanitized(Some(ts))[i]).role == "assistant"@ ==> {
                let t = sanitized(Some(ts))[i];
                &&& t.attachments is None
                &&& (t.voice_record_id matches Some(v) ==> v == trim(v) && !blank(v))
            },
{
    let k = kept_turns(ts);
    let ki = kept_indices(ts);
    let r = sanitized(Some(ts));
    lemma_kept_indices(ts);
    lemma_kept_turns_shape(ts);
    let off: int = if k.len() > MAX_TURNS { k.len() - MAX_TURNS } else { 0 };
    let idx = ki.skip(off);
    assert forall|i: int| 0 <= i < r.len() implies r[i] == k[i + off] by {}
    assert forall|i: int| 0 <= i < idx.len() implies {
        let j = #[trigger] idx[i];
        &&& 0 <= j < ts.len()
        &&& keeps_role(ts[j])
        &&& r[i] == clean_turn(ts[j])
    } by {
        assert(idx[i] == ki[i + off]);
    }
    assert forall|i: int, m: int| 0 <= i < m < idx.len() implies idx[i] < idx[m] by {
        assert(idx[i] == ki[i + off] && idx[m] == ki[m + off]);
    }
    assert forall|i: int|
        0 <= i < r.len() && (#[trigger] r[i]).role == "assistant"@ implies {
            let t = r[i];
            &&& t.attachments is None
            &&& (t.voice_record_id matches Some(v) ==> v == trim(v) && !blank(v))
        } by {
        let t = r[i];
        assert(t == k[i + off]);
        assert(clean_turn(t) == t);
    }
    assert(traces_input(ts, r, idx));
}

} // verus!
