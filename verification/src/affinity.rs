//! Which lane a conversation keeps to.
//!
//! A conversation is known by its model and its first two messages, most often
//! the system prompt and the first user turn, which stay the same over every
//! turn of an agent session. Keeping it on one key keeps any upstream prefix
//! cache warm. It is a hint: nothing depends on which key serves a request.
use std::collections::hash_map::DefaultHasher;
use std::hash::Hasher;

use vstd::prelude::*;
use vstd::std_specs::hash::DefaultHasherAdditionalSpecFns;
use vstd::utf8;

use crate::json;
use crate::json::{text_of, Document, JsonView};

verus! {

/// How many messages make a conversation known.
pub const OPENING_MESSAGES: usize = 2;

/// What is hashed for a run of texts: each text followed by a byte that no
/// text holds, so that no two runs are hashed alike.
pub open spec fn hashed(texts: Seq<Seq<char>>) -> Seq<Seq<u8>>
    decreases texts.len(),
{
    if texts.len() == 0 {
        Seq::empty()
    } else {
        hashed(texts.drop_last()).push(utf8::encode_utf8(texts.last())).push(seq![0xffu8])
    }
}

/// The lane of a conversation known by a run of texts.
pub open spec fn lane_of(texts: Seq<Seq<char>>, lanes: usize) -> usize {
    (DefaultHasher::spec_finish(hashed(texts)) % (lanes as u64)) as usize
}

/// The texts that a conversation is known by, if the body holds one: the model
/// (empty where it names none) and the opening messages.
pub open spec fn conversation(body: JsonView) -> Option<Seq<Seq<char>>> {
    match json::as_items(json::member(body, "messages"@)) {
        Some(messages) => Some(
            seq![model_or_empty(body)] + Seq::new(
                opening_len(messages.len()),
                |i: int| json::json_text(messages[i]),
            ),
        ),
        None => None,
    }
}

/// The model that a body names, or nothing.
pub open spec fn model_or_empty(body: JsonView) -> Seq<char> {
    match json::as_text(json::member(body, "model"@)) {
        Some(m) => m,
        None => ""@,
    }
}

/// How many of `n` messages make a conversation known.
pub open spec fn opening_len(n: nat) -> nat {
    if n < OPENING_MESSAGES {
        n
    } else {
        OPENING_MESSAGES as nat
    }
}

fn hash_text(h: &mut DefaultHasher, text: &str)
    ensures
        final(h)@ == old(h)@.push(utf8::encode_utf8(text@)).push(seq![0xffu8]),
{
    h.write(text.as_bytes());
    let end: [u8; 1] = [0xff];
    assert(end@ =~= seq![0xffu8]);
    h.write(&end);
}

/// The lane of a conversation known by its model and the texts of its opening
/// messages.
pub fn conversation_lane(model: &str, messages: &Vec<String>, lanes: usize) -> (r: usize)
    requires
        lanes > 0,
    ensures
        r == lane_of(
            seq![model@] + Seq::new(messages@.len(), |i: int| messages@[i]@),
            lanes,
        ),
        r < lanes,
{
    let ghost texts = seq![model@] + Seq::new(messages@.len(), |i: int| messages@[i]@);
    let mut h = DefaultHasher::new();
    hash_text(&mut h, model);
    assert(texts.take(1) =~= seq![model@]);
    assert(hashed(texts.take(1).drop_last()) =~= Seq::empty());
    assert(h@ =~= hashed(texts.take(1)));
    let mut i: usize = 0;
    while i < messages.len()
        invariant
            i <= messages@.len(),
            texts == seq![model@] + Seq::new(messages@.len(), |i: int| messages@[i]@),
            h@ == hashed(texts.take(i + 1)),
        decreases messages.len() - i,
    {
        hash_text(&mut h, messages[i].as_str());
        assert(texts.take(i + 2).drop_last() =~= texts.take(i + 1));
        i += 1;
    }
    assert(texts.take(i + 1) =~= texts);
    (h.finish() % (lanes as u64)) as usize
}

/// The lane that a request body prefers: none unless it holds messages.
pub fn affinity(body: &Document, lanes: usize) -> (r: Option<usize>)
    requires
        body.wf(),
        json::as_items(json::member(body@, "messages"@)) is Some ==> lanes > 0,
    ensures
        r == match conversation(body@) {
            Some(texts) => Some(lane_of(texts, lanes)),
            None => None,
        },
        r matches Some(lane) ==> lane < lanes,
{
    match body.first_texts("messages", OPENING_MESSAGES) {
        Some(texts) => {
            let model: &str = match text_of(body.content().get("model")) {
                Some(m) => m,
                None => "",
            };
            proof {
                let messages = json::as_items(json::member(body@, "messages"@))->0;
                assert(Seq::new(texts@.len(), |i: int| texts@[i]@) =~= Seq::new(
                    opening_len(messages.len()),
                    |i: int| json::json_text(messages[i]),
                ));
            }
            Some(conversation_lane(model, &texts, lanes))
        },
        None => None,
    }
}

/// Every turn of a conversation prefers the same lane: a body that names the
/// same model (a model that is not there or no text counts as empty) and opens
/// with the same messages does, whatever else it holds.
pub proof fn turns_of_a_conversation_share_a_lane(a: JsonView, b: JsonView, lanes: usize)
    requires
        model_or_empty(a) == model_or_empty(b),
        json::as_items(json::member(a, "messages"@)) matches Some(x)
            && json::as_items(json::member(b, "messages"@)) matches Some(y)
            && x.take(opening_len(x.len()) as int) == y.take(opening_len(y.len()) as int),
    ensures
        conversation(a) is Some,
        conversation(a) == conversation(b),
        lane_of(conversation(a)->0, lanes) == lane_of(conversation(b)->0, lanes),
{
    let x = json::as_items(json::member(a, "messages"@))->0;
    let y = json::as_items(json::member(b, "messages"@))->0;
    let n = opening_len(x.len());
    assert(x.take(n as int).len() == y.take(opening_len(y.len()) as int).len());
    assert forall|i: int| 0 <= i < n implies x[i] == y[i] by {
        assert(x.take(n as int)[i] == y.take(n as int)[i]);
    }
    assert(Seq::new(n, |i: int| json::json_text(x[i])) =~= Seq::new(
        n,
        |i: int| json::json_text(y[i]),
    ));
}

/// A conversation is known by its model and its first two messages, and by nothing
/// else: each of these texts is hashed, in this order, with an end mark after it,
/// and the remainder by the number of lanes is the lane. A model that is not there
/// counts as empty, and so does one that is no text.
pub proof fn a_conversation_is_known_by_its_opening(
    body: &Document,
    lanes: usize,
    r: Option<usize>,
    messages: Seq<JsonView>,
    model: Seq<char>,
)
    requires
        call_ensures(affinity, (body, lanes), r),
        body@ matches JsonView::Object(m) && m.contains_key("messages"@) && m["messages"@]
            == JsonView::Array(messages) && model == if m.contains_key("model"@) {
            match m["model"@] {
                JsonView::Text(s) => s,
                _ => Seq::empty(),
            }
        } else {
            Seq::empty()
        },
        lanes > 0,
    ensures
        ({
            let end = seq![0xffu8];
            let named = utf8::encode_utf8(model);
            let first = utf8::encode_utf8(json::json_text(messages[0]));
            let second = utf8::encode_utf8(json::json_text(messages[1]));
            let hashed = if messages.len() == 0 {
                seq![named, end]
            } else if messages.len() == 1 {
                seq![named, end, first, end]
            } else {
                seq![named, end, first, end, second, end]
            };
            r matches Some(lane) && lane < lanes && lane == (DefaultHasher::spec_finish(hashed) % (
            lanes as u64)) as usize
        }),
{
    reveal_strlit("");
    assert(""@ =~= Seq::<char>::empty());
    let texts = conversation(body@)->0;
    let end = seq![0xffu8];
    assert(texts.len() == 1 + opening_len(messages.len()));
    assert(texts[0] == model);
    assert(texts.take(0) =~= Seq::<Seq<char>>::empty());
    assert(texts.take(1).drop_last() =~= texts.take(0));
    assert(hashed(texts.take(0)) =~= Seq::<Seq<u8>>::empty());
    assert(hashed(texts.take(1)) =~= seq![utf8::encode_utf8(model), end]);
    if messages.len() == 0 {
        assert(texts.take(1) =~= texts);
    } else {
        assert(texts[1] == json::json_text(messages[0]));
        assert(texts.take(2).drop_last() =~= texts.take(1));
        assert(hashed(texts.take(2)) =~= seq![
            utf8::encode_utf8(model),
            end,
            utf8::encode_utf8(json::json_text(messages[0])),
            end,
        ]);
        if messages.len() == 1 {
            assert(texts.take(2) =~= texts);
        } else {
            assert(texts[2] == json::json_text(messages[1]));
            assert(texts.take(3).drop_last() =~= texts.take(2));
            assert(hashed(texts.take(3)) =~= seq![
                utf8::encode_utf8(model),
                end,
                utf8::encode_utf8(json::json_text(messages[0])),
                end,
                utf8::encode_utf8(json::json_text(messages[1])),
                end,
            ]);
            assert(texts.take(3) =~= texts);
        }
    }
}

/// A body without an array of messages prefers no lane.
pub proof fn no_messages_no_preference(body: &Document, lanes: usize, r: Option<usize>)
    requires
        call_ensures(affinity, (body, lanes), r),
    ensures
        r is Some <==> (body@ matches JsonView::Object(m) && m.contains_key("messages"@)
            && m["messages"@] is Array),
{
}

/// The lane that a body prefers is that of its model and the texts of its first two
/// messages.
pub proof fn a_body_prefers_the_lane_of_its_opening(
    body: &Document,
    lanes: usize,
    r: Option<usize>,
    messages: Seq<JsonView>,
    model: &str,
    texts: Vec<String>,
    lane: usize,
)
    requires
        call_ensures(affinity, (body, lanes), r),
        body@ matches JsonView::Object(m) && m.contains_key("messages"@) && m["messages"@]
            == JsonView::Array(messages) && model@ == if m.contains_key("model"@) {
            match m["model"@] {
                JsonView::Text(s) => s,
                _ => Seq::empty(),
            }
        } else {
            Seq::empty()
        },
        texts@.len() == if messages.len() < 2 {
            messages.len()
        } else {
            2
        },
        forall|i: int|
            0 <= i < texts@.len() ==> (#[trigger] texts@[i])@ == json::json_text(messages[i]),
        call_ensures(conversation_lane, (model, &texts, lanes), lane),
        lanes > 0,
    ensures
        r == Some(lane),
        lane < lanes,
{
    reveal_strlit("");
    assert(""@ =~= Seq::<char>::empty());
    assert(Seq::new(texts@.len(), |i: int| texts@[i]@) =~= Seq::new(
        opening_len(messages.len()),
        |i: int| json::json_text(messages[i]),
    ));
}

} // verus!
