//! Discord rich presence: the fields sent to Discord, the client id in use, and
//! the connection manager, a state machine whose actions the caller performs on
//! the Discord IPC client.

use vstd::prelude::*;
use vstd::utf8::{char_is_scalar, encode_scalar, encode_utf8};
use crate::text::{chars_of, owned, string_of, trim, Strip, trim_chars};

verus! {

/// The longest text, in UTF-8 bytes, that a presence field may hold.
pub const MAX_DISCORD_FIELD_LENGTH: usize = 128;

/// The length of `s` in UTF-8 bytes, which `str::len` returns.
pub open spec fn utf8_len(s: Seq<char>) -> nat {
    encode_utf8(s).len()
}

/// Whether `b` bytes into `s` a character begins (or `s` ends).
pub open spec fn is_boundary(s: Seq<char>, b: nat) -> bool {
    exists|k: int| 0 <= k <= s.len() && utf8_len(s.take(k)) == b
}

/// The texts that `clamp_discord_field` accepts: those that fit, and longer ones
/// in which a character begins three bytes before the limit (where the cut is made).
pub open spec fn clampable(s: Seq<char>) -> bool {
    utf8_len(s) <= MAX_DISCORD_FIELD_LENGTH || is_boundary(s, (MAX_DISCORD_FIELD_LENGTH - 3) as nat)
}

/// A text that fits unchanged; a longer one cut three bytes before the limit,
/// with `...` after it.
pub open spec fn clamped(s: Seq<char>) -> Seq<char> {
    if utf8_len(s) <= MAX_DISCORD_FIELD_LENGTH {
        s
    } else {
        let k = choose|k: int|
            0 <= k <= s.len() && utf8_len(s.take(k)) == MAX_DISCORD_FIELD_LENGTH - 3;
        s.take(k) + "..."@
    }
}

proof fn lemma_encode_concat(a: Seq<char>, b: Seq<char>)
    ensures
        encode_utf8(a + b) == encode_utf8(a) + encode_utf8(b),
    decreases a.len(),
{
    if a.len() > 0 {
        lemma_encode_concat(a.drop_first(), b);
        assert((a + b).drop_first() =~= a.drop_first() + b);
        assert((a + b)[0] == a[0]);
        assert(encode_utf8(a + b) =~= encode_scalar(a[0] as u32) + (encode_utf8(a.drop_first())
            + encode_utf8(b)));
    } else {
        assert(a + b =~= b);
        assert(encode_utf8(a) =~= Seq::<u8>::empty());
    }
}

proof fn lemma_encode_one(c: char)
    ensures
        encode_utf8(seq![c]) == encode_scalar(c as u32),
        1 <= encode_scalar(c as u32).len() <= 4,
{
    broadcast use char_is_scalar;

    assert(seq![c].drop_first() =~= Seq::<char>::empty());
    assert(encode_utf8(Seq::<char>::empty()) =~= Seq::<u8>::empty());
    assert(encode_scalar(c as u32) + Seq::<u8>::empty() =~= encode_scalar(c as u32));
}

proof fn lemma_utf8_len_step(s: Seq<char>, k: int)
    requires
        0 <= k < s.len(),
    ensures
        utf8_len(s.take(k + 1)) == utf8_len(s.take(k)) + encode_scalar(s[k] as u32).len(),
        utf8_len(s.take(k + 1)) > utf8_len(s.take(k)),
{
    assert(s.take(k + 1) =~= s.take(k) + seq![s[k]]);
    lemma_encode_concat(s.take(k), seq![s[k]]);
    lemma_encode_one(s[k]);
}

proof fn lemma_utf8_len_grows(s: Seq<char>, i: int, j: int)
    requires
        0 <= i < j <= s.len(),
    ensures
        utf8_len(s.take(i)) < utf8_len(s.take(j)),
    decreases j - i,
{
    lemma_utf8_len_step(s, j - 1);
    if i < j - 1 {
        lemma_utf8_len_grows(s, i, j - 1);
    }
}

/// The number of UTF-8 bytes that encode `c`.
fn utf8_width(c: char) -> (w: usize)
    ensures
        w == encode_scalar(c as u32).len(),
{
    proof {
        broadcast use char_is_scalar;
    }
    let u = c as u32;
    if u <= 0x7F {
        1
    } else if u <= 0x7FF {
        2
    } else if u <= 0xFFFF {
        3
    } else {
        4
    }
}

/// Keeps a presence field within Discord's limit.
pub fn clamp_discord_field(value: &str) -> (r: String)
    requires
        clampable(value@),
    ensures
        r@ == clamped(value@),
        utf8_len(r@) <= MAX_DISCORD_FIELD_LENGTH,
{
    let chars = chars_of(value);
    let ghost s = value@;
    assert(s.take(0) =~= Seq::<char>::empty());
    assert(encode_utf8(Seq::<char>::empty()) =~= Seq::<u8>::empty());
    // Count bytes until the text is known to fit or known not to.
    let mut total: usize = 0;
    let mut n: usize = 0;
    while n < chars.len() && total <= MAX_DISCORD_FIELD_LENGTH
        invariant
            chars@ == s,
            n <= s.len(),
            total == utf8_len(s.take(n as int)),
            total <= MAX_DISCORD_FIELD_LENGTH + 4,
        decreases s.len() - n,
    {
        proof {
            lemma_utf8_len_step(s, n as int);
        }
        total = total + utf8_width(chars[n]);
        n = n + 1;
    }
    if total <= MAX_DISCORD_FIELD_LENGTH {
        assert(s.take(n as int) =~= s);
        return string_of(chars.as_slice());
    }
    proof {
        if n < s.len() {
            lemma_utf8_len_grows(s, n as int, s.len() as int);
        }
        assert(s.take(s.len() as int) =~= s);
    }
    let ghost target = (MAX_DISCORD_FIELD_LENGTH - 3) as nat;
    let ghost k0 = choose|k: int| 0 <= k <= s.len() && utf8_len(s.take(k)) == target;
    let mut bytes: usize = 0;
    let mut k: usize = 0;
    let len = chars.len();
    while bytes < MAX_DISCORD_FIELD_LENGTH - 3
        invariant
            chars@ == s,
            len == s.len(),
            0 <= k0 <= s.len(),
            utf8_len(s.take(k0)) == target,
            target == MAX_DISCORD_FIELD_LENGTH - 3,
            k <= k0,
            bytes == utf8_len(s.take(k as int)),
        decreases k0 - k,
    {
        proof {
            assert(k < k0);
            lemma_utf8_len_step(s, k as int);
            if k + 1 < k0 {
                lemma_utf8_len_grows(s, k + 1, k0);
            }
        }
        bytes = bytes + utf8_width(chars[k]);
        k = k + 1;
    }
    proof {
        if k < k0 {
            lemma_utf8_len_grows(s, k as int, k0);
        }
        assert(k == k0);
        let kc = choose|kk: int| 0 <= kk <= s.len() && utf8_len(s.take(kk)) == target;
        if kc < k0 {
            lemma_utf8_len_grows(s, kc, k0);
        } else if kc > k0 {
            lemma_utf8_len_grows(s, k0, kc);
        }
    }
    let mut prefix: Vec<char> = Vec::new();
    let mut i: usize = 0;
    while i < k
        invariant
            chars@ == s,
            k <= s.len(),
            i <= k,
            prefix@ == s.take(i as int),
        decreases k - i,
    {
        prefix.push(chars[i]);
        assert(s.take(i + 1) == s.take(i as int).push(s[i as int]));
        i = i + 1;
    }
    prefix.push('.');
    prefix.push('.');
    prefix.push('.');
    proof {
        reveal_strlit("...");
        assert(prefix@ =~= s.take(k as int) + "..."@);
        let dots = seq!['.', '.', '.'];
        assert("..."@ =~= dots);
        lemma_encode_concat(s.take(k as int), dots);
        assert(dots =~= seq!['.'] + (seq!['.'] + seq!['.']));
        lemma_encode_concat(seq!['.'], seq!['.'] + seq!['.']);
        lemma_encode_concat(seq!['.'], seq!['.']);
        lemma_encode_one('.');
        assert(encode_scalar('.' as u32).len() == 1);
    }
    string_of(prefix.as_slice())
}

/// The view of an optional text.
pub open spec fn opt_view(o: Option<String>) -> Option<Seq<char>> {
    match o {
        Some(s) => Some(s@),
        None => None,
    }
}

/// The client id to use: the override when it holds more than white space,
/// else the built-in one when that does, trimmed either way.
pub open spec fn resolved_client_id(over: Seq<char>, built_in: Option<Seq<char>>) -> Option<
    Seq<char>,
> {
    if trim(over).len() > 0 {
        Some(trim(over))
    } else {
        match built_in {
            Some(b) => if trim(b).len() > 0 {
                Some(trim(b))
            } else {
                None
            },
            None => None,
        }
    }
}

/// The client id to use, given the one the caller supplies and the one built in.
pub fn resolve_discord_client_id(override_client_id: &str, built_in: Option<&str>) -> (r: Option<
    String,
>)
    ensures
        opt_view(r) == resolved_client_id(
            override_client_id@,
            match built_in {
                Some(b) => Some(b@),
                None => None,
            },
        ),
{
    let over = chars_of(override_client_id);
    let trimmed = trim_chars(over.as_slice(), Strip::WhiteSpace);
    if trimmed.len() > 0 {
        return Some(string_of(trimmed.as_slice()));
    }
    match built_in {
        Some(b) => {
            let chars = chars_of(b);
            let t = trim_chars(chars.as_slice(), Strip::WhiteSpace);
            if t.len() > 0 {
                Some(string_of(t.as_slice()))
            } else {
                None
            }
        },
        None => None,
    }
}

/// A button of a presence.
pub struct DiscordRpcButtonPayload {
    pub label: String,
    pub url: String,
}

/// The presence that the front end asks to show.
pub struct DiscordRpcPresencePayload {
    pub details: String,
    pub state: String,
    pub large_image_key: String,
    pub large_image_text: String,
    pub small_image_key: String,
    pub small_image_text: String,
    pub start_timestamp: Option<i64>,
    pub end_timestamp: Option<i64>,
    pub buttons: Vec<DiscordRpcButtonPayload>,
}

/// The timestamps of an activity.
pub struct ActivityTimestamps {
    pub start: Option<i64>,
    pub end: Option<i64>,
}

/// What is sent to Discord as the activity: the texts and images, the
/// timestamps when there are any, and the buttons when there are any.
pub struct DiscordActivity {
    pub details: String,
    pub state: String,
    pub large_image: String,
    pub large_text: String,
    pub small_image: String,
    pub small_text: String,
    pub timestamps: Option<ActivityTimestamps>,
    pub buttons: Option<Vec<DiscordRpcButtonPayload>>,
}

/// The label and url of each button.
pub open spec fn button_views(b: Seq<DiscordRpcButtonPayload>) -> Seq<(Seq<char>, Seq<char>)> {
    b.map_values(|x: DiscordRpcButtonPayload| (x.label@, x.url@))
}

/// The content of an activity.
pub struct ActivityView {
    pub details: Seq<char>,
    pub state: Seq<char>,
    pub large_image: Seq<char>,
    pub large_text: Seq<char>,
    pub small_image: Seq<char>,
    pub small_text: Seq<char>,
    pub timestamps: Option<(Option<i64>, Option<i64>)>,
    pub buttons: Option<Seq<(Seq<char>, Seq<char>)>>,
}

impl View for DiscordActivity {
    type V = ActivityView;

    open spec fn view(&self) -> ActivityView {
        ActivityView {
            details: self.details@,
            state: self.state@,
            large_image: self.large_image@,
            large_text: self.large_text@,
            small_image: self.small_image@,
            small_text: self.small_text@,
            timestamps: match self.timestamps {
                Some(t) => Some((t.start, t.end)),
                None => None,
            },
            buttons: match self.buttons {
                Some(b) => Some(button_views(b@)),
                None => None,
            },
        }
    }
}

/// The activity for a presence payload: its texts and images, timestamps only
/// when it has a start or an end, and at most its first two buttons, none when
/// it has none.
pub open spec fn activity_of(payload: DiscordRpcPresencePayload) -> ActivityView {
    ActivityView {
        details: payload.details@,
        state: payload.state@,
        large_image: payload.large_image_key@,
        large_text: payload.large_image_text@,
        small_image: payload.small_image_key@,
        small_text: payload.small_image_text@,
        timestamps: if payload.start_timestamp is Some || payload.end_timestamp is Some {
            Some((payload.start_timestamp, payload.end_timestamp))
        } else {
            None
        },
        buttons: if payload.buttons@.len() == 0 {
            None
        } else {
            Some(
                button_views(payload.buttons@).take(
                    if payload.buttons@.len() < 2 {
                        payload.buttons@.len() as int
                    } else {
                        2
                    },
                ),
            )
        },
    }
}

fn copy_button(b: &DiscordRpcButtonPayload) -> (r: DiscordRpcButtonPayload)
    ensures
        r.label@ == b.label@,
        r.url@ == b.url@,
{
    DiscordRpcButtonPayload { label: b.label.clone(), url: b.url.clone() }
}

fn copy_buttons(buttons: &[DiscordRpcButtonPayload], n: usize) -> (v: Vec<DiscordRpcButtonPayload>)
    requires
        n <= buttons@.len(),
    ensures
        button_views(v@) == button_views(buttons@).take(n as int),
        v@.len() == n,
{
    let mut v: Vec<DiscordRpcButtonPayload> = Vec::new();
    for i in 0..n
        invariant
            n <= buttons@.len(),
            button_views(v@) == button_views(buttons@).take(i as int),
            v@.len() == i,
    {
        let b = copy_button(&buttons[i]);
        let ghost item = (b.label@, b.url@);
        let ghost before = v@;
        assert(button_views(buttons@)[i as int] == item);
        v.push(b);
        assert(button_views(v@) =~= button_views(before).push(item));
        assert(button_views(buttons@).take(i + 1) =~= button_views(buttons@).take(i as int).push(
            item,
        ));
    }
    v
}

/// A copy of an activity.
pub fn copy_activity(a: &DiscordActivity) -> (r: DiscordActivity)
    ensures
        r@ == a@,
{
    let timestamps = match &a.timestamps {
        Some(t) => Some(ActivityTimestamps { start: t.start, end: t.end }),
        None => None,
    };
    let buttons = match &a.buttons {
        Some(b) => {
            let v = copy_buttons(b.as_slice(), b.len());
            assert(button_views(b@).take(b@.len() as int) =~= button_views(b@));
            Some(v)
        },
        None => None,
    };
    DiscordActivity {
        details: a.details.clone(),
        state: a.state.clone(),
        large_image: a.large_image.clone(),
        large_text: a.large_text.clone(),
        small_image: a.small_image.clone(),
        small_text: a.small_text.clone(),
        timestamps,
        buttons,
    }
}

/// The activity for a presence payload: at most the first two buttons, and
/// timestamps only when the payload has a start or an end.
pub fn build_discord_activity(payload: &DiscordRpcPresencePayload) -> (r: DiscordActivity)
    ensures
        r@ == activity_of(*payload),
        r.buttons matches Some(b) ==> 1 <= b@.len() <= 2,
{
    let has_timestamps = payload.start_timestamp.is_some() || payload.end_timestamp.is_some();
    let timestamps = if has_timestamps {
        Some(ActivityTimestamps { start: payload.start_timestamp, end: payload.end_timestamp })
    } else {
        None
    };
    let buttons = if payload.buttons.len() == 0 {
        None
    } else {
        let n: usize = if payload.buttons.len() < 2 {
            payload.buttons.len()
        } else {
            2
        };
        Some(copy_buttons(payload.buttons.as_slice(), n))
    };
    DiscordActivity {
        details: payload.details.clone(),
        state: payload.state.clone(),
        large_image: payload.large_image_key.clone(),
        large_text: payload.large_image_text.clone(),
        small_image: payload.small_image_key.clone(),
        small_text: payload.small_image_text.clone(),
        timestamps,
        buttons,
    }
}

/// The activity keeps the payload's texts and images, both of its times
/// whenever it has either (a start without an end, an end without a start, or
/// both), no timestamps when it has neither, and its buttons in order, at most two.
pub proof fn law_activity_keeps_payload(payload: DiscordRpcPresencePayload)
    ensures
        ({
            let a = activity_of(payload);
            &&& a.details == payload.details@ && a.state == payload.state@
            &&& a.large_image == payload.large_image_key@ && a.large_text == payload.large_image_text@
            &&& a.small_image == payload.small_image_key@ && a.small_text == payload.small_image_text@
            &&& payload.end_timestamp is Some ==> a.timestamps == Some(
                (payload.start_timestamp, payload.end_timestamp),
            )
            &&& payload.start_timestamp is Some ==> a.timestamps == Some(
                (payload.start_timestamp, payload.end_timestamp),
            )
            &&& (payload.start_timestamp is None && payload.end_timestamp is None) ==> a.timestamps
                is None
            &&& payload.buttons@.len() == 0 ==> a.buttons is None
            &&& payload.buttons@.len() > 0 ==> a.buttons is Some
            &&& payload.buttons@.len() > 0 ==> a.buttons->0.len() == if payload.buttons@.len() < 2 {
                payload.buttons@.len()
            } else {
                2
            }
            &&& a.buttons is Some ==> forall|k: int|
                0 <= k < a.buttons->0.len() ==> #[trigger] a.buttons->0[k] == (
                    payload.buttons@[k].label@,
                    payload.buttons@[k].url@,
                )
        }),
{
}

} // verus!
