//! The decisions of the chat's network side: what a read from a socket
//! means, how outgoing text is framed, where a message goes, and which
//! client connections are dropped after a broadcast.
//!
//! Sockets, tasks and locks live outside this library; they hand the
//! outcome of each operation to these functions.

use vstd::prelude::*;
use vstd::utf8::{
    decode_utf8, encode_utf8, encode_utf8_decode_utf8, encode_utf8_valid_utf8, valid_utf8,
};
use crate::text::{
    decode_lossy, is_white_space, join_text, lemma_trim_idempotent, lemma_trim_ignores_padding, trim,
    trimmed, utf8_lossy,
};
use crate::ui_manager::{UIEvent, UIEventView};

verus! {

/// The outcome of one read from a socket.
#[derive(Debug, PartialEq, Eq)]
pub enum ReadResult {
    /// Bytes arrived.
    Data(Vec<u8>),
    /// The peer closed the connection (a read of zero bytes).
    Closed,
    /// The read failed, with the error's text.
    Failed(String),
}

/// The text of a received chunk: the bytes decoded as UTF-8 (ill-formed
/// sequences replaced) with surrounding whitespace removed.
pub open spec fn received_text(bytes: Seq<u8>) -> Seq<char> {
    trimmed(utf8_lossy(bytes))
}

/// A line as it is written to a socket: the text and a newline.
pub open spec fn framed(text: Seq<char>) -> Seq<char> {
    text.push('\n')
}

/// Decodes and trims a received chunk.
pub fn decode_received(bytes: &[u8]) -> (r: String)
    ensures
        r@ == received_text(bytes@),
        valid_utf8(bytes@) ==> r@ == trimmed(decode_utf8(bytes@)),
{
    let decoded = decode_lossy(bytes);
    let t = trim(decoded.as_str());
    String::from_str(t)
}

/// Appends the newline that ends every message on the wire.
pub fn frame_line(text: &str) -> (r: String)
    ensures
        r@ == framed(text@),
{
    let r = join_text(text, "\n");
    proof {
        reveal_strlit("\n");
        assert(r@ =~= text@.push('\n'));
    }
    r
}

/// What the server does after reading from one client.
#[derive(Debug, PartialEq, Eq)]
pub enum ServerReaction {
    /// The client is gone; stop serving it.
    Disconnect,
    /// Show `event` in the server's window and send `line` to every client.
    Relay { event: UIEvent, line: String },
}

/// The server's reaction to a read from a client: received text is shown
/// locally and relayed, newline-terminated, to every connected client; a
/// closed connection or a failed read ends the client's session.
pub fn server_on_read(read: ReadResult) -> (r: ServerReaction)
    ensures
        match read {
            ReadResult::Data(bytes) => if bytes@.len() > 0 {
                r matches ServerReaction::Relay { event, line } && event@
                    == (UIEventView::MessageReceived { text: received_text(bytes@) }) && line@
                    == framed(received_text(bytes@))
            } else {
                r is Disconnect
            },
            _ => r is Disconnect,
        },
{
    match read {
        ReadResult::Data(bytes) => {
            if bytes.len() == 0 {
                return ServerReaction::Disconnect;
            }
            let text = decode_received(bytes.as_slice());
            let line = frame_line(text.as_str());
            ServerReaction::Relay { event: UIEvent::MessageReceived { text }, line }
        },
        _ => ServerReaction::Disconnect,
    }
}

/// What a client does after reading from the server.
#[derive(Debug, PartialEq, Eq)]
pub enum ClientReaction {
    /// Show the event and keep reading.
    Show(UIEvent),
    /// Stop reading, after showing the event if there is one.
    Stop(Option<UIEvent>),
}

/// The client's reaction to a read from the server: received text is shown;
/// a closed connection stops reading silently; a failed read stops reading
/// and reports the error.
pub fn client_on_read(read: ReadResult) -> (r: ClientReaction)
    ensures
        match read {
            ReadResult::Data(bytes) => if bytes@.len() > 0 {
                r matches ClientReaction::Show(event) && event@ == (UIEventView::MessageReceived {
                    text: received_text(bytes@),
                })
            } else {
                r matches ClientReaction::Stop(None)
            },
            ReadResult::Closed => r matches ClientReaction::Stop(None),
            ReadResult::Failed(e) => r matches ClientReaction::Stop(Some(event)) && event@
                == (UIEventView::Error { message: "Connection error: "@ + e@ }),
        },
{
    match read {
        ReadResult::Data(bytes) => {
            if bytes.len() == 0 {
                return ClientReaction::Stop(None);
            }
            let text = decode_received(bytes.as_slice());
            ClientReaction::Show(UIEvent::MessageReceived { text })
        },
        ReadResult::Closed => ClientReaction::Stop(None),
        ReadResult::Failed(e) => {
            let message = join_text("Connection error: ", e.as_str());
            ClientReaction::Stop(Some(UIEvent::Error { message }))
        },
    }
}

/// Where an outgoing message goes.
#[derive(Debug, PartialEq, Eq)]
pub enum SendPlan {
    /// A client writes `line` to its server.
    ToServer { line: String },
    /// A server writes `line` to every client and shows `echo` in its own
    /// window.
    Broadcast { line: String, echo: UIEvent },
}

/// Plans sending `text`: a connected client sends it to the server; a server
/// broadcasts it to its clients and shows it in its own window.
pub fn plan_send(connected_to_server: bool, text: String) -> (r: SendPlan)
    ensures
        connected_to_server ==> (r matches SendPlan::ToServer { line } && line@ == framed(text@)),
        !connected_to_server ==> (r matches SendPlan::Broadcast { line, echo } && line@ == framed(
            text@,
        ) && echo@ == (UIEventView::MessageReceived { text: text@ })),
{
    let line = frame_line(text.as_str());
    if connected_to_server {
        SendPlan::ToServer { line }
    } else {
        SendPlan::Broadcast { line, echo: UIEvent::MessageReceived { text } }
    }
}

/// The items of `items` whose write did not fail, in their order.
pub open spec fn kept<T>(items: Seq<T>, failed: Seq<bool>) -> Seq<T>
    decreases items.len(),
{
    if items.len() == 0 {
        Seq::empty()
    } else {
        (if failed[0] {
            Seq::empty()
        } else {
            seq![items[0]]
        }) + kept(items.drop_first(), failed.drop_first())
    }
}

/// Keeping splits over concatenation.
pub proof fn lemma_kept_concat<T>(a: Seq<T>, fa: Seq<bool>, b: Seq<T>, fb: Seq<bool>)
    requires
        a.len() == fa.len(),
    ensures
        kept(a + b, fa + fb) == kept(a, fa) + kept(b, fb),
    decreases a.len(),
{
    if a.len() == 0 {
        assert(a + b =~= b);
        assert(fa + fb =~= fb);
        assert(kept(a, fa) + kept(b, fb) =~= kept(b, fb));
    } else {
        lemma_kept_concat(a.drop_first(), fa.drop_first(), b, fb);
        assert((a + b).drop_first() =~= a.drop_first() + b);
        assert((fa + fb).drop_first() =~= fa.drop_first() + fb);
        assert((a + b)[0] == a[0]);
        assert((fa + fb)[0] == fa[0]);
        let head: Seq<T> = if fa[0] {
            Seq::empty()
        } else {
            seq![a[0]]
        };
        assert(head + (kept(a.drop_first(), fa.drop_first()) + kept(b, fb)) =~= (head + kept(
            a.drop_first(),
            fa.drop_first(),
        )) + kept(b, fb));
    }
}

/// Nothing failed, so everything is kept.
pub proof fn lemma_kept_all<T>(a: Seq<T>, fa: Seq<bool>)
    requires
        a.len() == fa.len(),
        forall|i: int| 0 <= i < fa.len() ==> !fa[i],
    ensures
        kept(a, fa) == a,
    decreases a.len(),
{
    if a.len() > 0 {
        lemma_kept_all(a.drop_first(), fa.drop_first());
        assert(!fa[0]);
        assert(seq![a[0]] + a.drop_first() =~= a);
    }
}

/// Removes the connections whose write failed, as the broadcast does: the
/// failed positions are collected in ascending order and removed from the
/// highest down, so the remaining connections keep their order.
pub fn remove_failed<T>(writers: &mut Vec<T>, failed: &Vec<bool>)
    requires
        old(writers)@.len() == failed@.len(),
    ensures
        final(writers)@ == kept(old(writers)@, failed@),
{
    let n: usize = writers.len();
    let ghost orig = writers@;
    let ghost f = failed@;
    let mut dead: Vec<usize> = Vec::new();
    let mut i: usize = 0;
    while i < n
        invariant
            n == f.len(),
            f == failed@,
            i <= n,
            forall|a: int, b: int| 0 <= a < b < dead@.len() ==> dead@[a] < dead@[b],
            forall|a: int| 0 <= a < dead@.len() ==> dead@[a] < i && f[dead@[a] as int],
            forall|k: int| 0 <= k < i && f[k] ==> dead@.contains(k as usize),
        decreases n - i,
    {
        let ghost before = dead@;
        if failed[i] {
            dead.push(i);
            assert(dead@[dead@.len() - 1] == i);
        }
        assert forall|k: int| 0 <= k < i + 1 && f[k] implies dead@.contains(k as usize) by {
            if k == i {
                assert(dead@[dead@.len() - 1] == i);
            } else {
                let a = choose|a: int| 0 <= a < before.len() && before[a] == k as usize;
                assert(dead@[a] == before[a]);
            }
        }
        i = i + 1;
    }
    let ghost mut bound: int = n as int;
    assert(orig.subrange(0, n as int) =~= orig);
    assert(orig.subrange(n as int, n as int) =~= Seq::<T>::empty());
    assert(f.subrange(n as int, n as int) =~= Seq::<bool>::empty());
    while dead.len() > 0
        invariant
            n == f.len(),
            n == orig.len(),
            0 <= bound <= n,
            forall|a: int, b: int| 0 <= a < b < dead@.len() ==> dead@[a] < dead@[b],
            forall|a: int| 0 <= a < dead@.len() ==> dead@[a] < bound && f[dead@[a] as int],
            forall|k: int| 0 <= k < bound && f[k] ==> dead@.contains(k as usize),
            writers@ == orig.subrange(0, bound) + kept(
                orig.subrange(bound, n as int),
                f.subrange(bound, n as int),
            ),
        decreases dead.len(),
    {
        let ghost old_dead = dead@;
        let j = dead.pop().unwrap();
        assert(dead@ =~= old_dead.drop_last());
        let ghost idx = j as int;
        assert(idx < bound);
        assert(f[idx]);
        // no failure strictly between idx and bound
        assert forall|k: int| idx < k < bound implies !f[k] by {
            if f[k] {
                let a = choose|a: int| 0 <= a < old_dead.len() && old_dead[a] == k as usize;
                assert(old_dead[a] > old_dead[old_dead.len() - 1]);
                if a < old_dead.len() - 1 {
                    assert(old_dead[a] < old_dead[old_dead.len() - 1]);
                }
            }
        }
        let ghost mid = orig.subrange(idx + 1, bound);
        let ghost fmid = f.subrange(idx + 1, bound);
        let ghost tail = orig.subrange(bound, n as int);
        let ghost ftail = f.subrange(bound, n as int);
        proof {
            lemma_kept_all(mid, fmid);
            lemma_kept_concat(mid, fmid, tail, ftail);
            assert(mid + tail =~= orig.subrange(idx + 1, n as int));
            assert(fmid + ftail =~= f.subrange(idx + 1, n as int));
            let whole = orig.subrange(idx, n as int);
            let fwhole = f.subrange(idx, n as int);
            assert(whole.len() > 0);
            assert(whole.drop_first() =~= orig.subrange(idx + 1, n as int));
            assert(fwhole.drop_first() =~= f.subrange(idx + 1, n as int));
            assert(fwhole[0]);
            assert(kept(whole, fwhole) =~= mid + kept(tail, ftail));
        }
        writers.remove(j);
        proof {
            assert(writers@ =~= orig.subrange(0, idx) + kept(
                orig.subrange(idx, n as int),
                f.subrange(idx, n as int),
            ));
            bound = idx;
            assert forall|k: int| 0 <= k < bound && f[k] implies dead@.contains(k as usize) by {
                assert(old_dead.contains(k as usize));
                let a = choose|a: int| 0 <= a < old_dead.len() && old_dead[a] == k as usize;
                assert(a != old_dead.len() - 1);
                assert(dead@[a] == k as usize);
            }
        }
    }
    proof {
        assert forall|k: int| 0 <= k < bound implies !f[k] by {
            if f[k] {
                assert(dead@.contains(k as usize));
            }
        }
        lemma_kept_all(orig.subrange(0, bound), f.subrange(0, bound));
        lemma_kept_concat(
            orig.subrange(0, bound),
            f.subrange(0, bound),
            orig.subrange(bound, n as int),
            f.subrange(bound, n as int),
        );
        assert(orig.subrange(0, bound) + orig.subrange(bound, n as int) =~= orig);
        assert(f.subrange(0, bound) + f.subrange(bound, n as int) =~= f);
    }
}

/// The newline that ends a line on the wire is whitespace, so the receiver's
/// trimming removes it again.
pub proof fn lemma_framing_is_trimmed_away(text: Seq<char>)
    ensures
        trimmed(framed(text)) == trimmed(text),
{
    let nl = seq!['\n'];
    assert(is_white_space(nl[0]));
    assert(Seq::<char>::empty() + text + nl =~= framed(text));
    lemma_trim_ignores_padding(Seq::<char>::empty(), text, nl);
}

/// A message survives the wire: sending `text` as a UTF-8 encoded line and
/// receiving those bytes gives back the text without surrounding whitespace.
pub proof fn lemma_sent_line_received_as_text(text: Seq<char>)
    ensures
        valid_utf8(encode_utf8(framed(text))),
        trimmed(decode_utf8(encode_utf8(framed(text)))) == trimmed(text),
{
    encode_utf8_valid_utf8(framed(text));
    encode_utf8_decode_utf8(framed(text));
    lemma_framing_is_trimmed_away(text);
}

/// A framed line is the whole text followed by exactly one newline.
pub proof fn lemma_framed_parts(text: Seq<char>)
    ensures
        framed(text).len() == text.len() + 1,
        framed(text).subrange(0, text.len() as int) == text,
        framed(text)[text.len() as int] == '\n',
{
    assert(framed(text).subrange(0, text.len() as int) =~= text);
}

/// Received text never starts or ends with whitespace, and trimming it again
/// changes nothing.
pub proof fn lemma_received_text_is_trimmed(bytes: Seq<u8>)
    ensures
        received_text(bytes).len() > 0 ==> !is_white_space(received_text(bytes)[0])
            && !is_white_space(received_text(bytes).last()),
        trimmed(received_text(bytes)) == received_text(bytes),
{
    lemma_trim_idempotent(utf8_lossy(bytes));
}

/// One connection: it stays when its write succeeded and goes when it failed.
pub proof fn lemma_kept_single<T>(item: T)
    ensures
        kept(seq![item], seq![false]) == seq![item],
        kept(seq![item], seq![true]) == Seq::<T>::empty(),
{
    let one = seq![item];
    assert(one[0] == item);
    assert(seq![false][0] == false);
    assert(seq![true][0] == true);
    assert(kept(Seq::<T>::empty(), Seq::<bool>::empty()) == Seq::<T>::empty());
    assert(seq![item].drop_first() =~= Seq::<T>::empty());
    assert(seq![false].drop_first() =~= Seq::<bool>::empty());
    assert(seq![true].drop_first() =~= Seq::<bool>::empty());
    assert(seq![item] + Seq::<T>::empty() =~= seq![item]);
    assert(Seq::<T>::empty() + Seq::<T>::empty() =~= Seq::<T>::empty());
}

} // verus!
