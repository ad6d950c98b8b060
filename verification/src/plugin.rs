//! The connection multiplexer: registry, routing and event surface.
//!
//! [`NetworkManager`] owns the client registry, one outbound queue per
//! registered client, the shared inbound queue and the lifecycle event
//! queue. The transport layer drives it from the connection handlers (frames
//! in, queued messages out), and the application drives it once per tick
//! through the drain calls and the send commands. All state lives behind one
//! value, so a host wraps it in a single lock held only for the span of one
//! call, never across I/O.

use vstd::prelude::*;
use crate::client_list::ClientStore;
use crate::events::{LifecycleEvent, ServerMessageEvent};
use crate::{Message, MessageView, WireFrame, WireFrameView};

verus! {

/// The messages of a queue, by mathematical value, oldest first.
pub open spec fn queue_view(q: Seq<Message>) -> Seq<MessageView> {
    Seq::new(q.len(), |i: int| q[i]@)
}

/// The inbound queue by mathematical value: (sender, payload), oldest first.
pub open spec fn messages_view(s: Seq<ServerMessageEvent>) -> Seq<(u64, MessageView)> {
    Seq::new(s.len(), |i: int| s[i]@)
}

/// What one close notification does to the multiplexer: a registered client
/// is deregistered and exactly one `Disconnected` event is emitted; a client
/// that is already gone leaves everything unchanged.
pub open spec fn close_step(
    outbound: Map<u64, Seq<MessageView>>,
    events: Seq<LifecycleEvent>,
    id: u64,
) -> (Map<u64, Seq<MessageView>>, Seq<LifecycleEvent>) {
    if outbound.contains_key(id) {
        (outbound.remove(id), events.push(LifecycleEvent::Disconnected(id)))
    } else {
        (outbound, events)
    }
}

/// Deregistration is idempotent: however many close notifications arrive for
/// one identifier, the first deregisters the client and emits exactly one
/// `Disconnected` event, and every further one is a no-op — never zero
/// events for a registered client, never more than one.
pub proof fn lemma_close_idempotent(
    outbound: Map<u64, Seq<MessageView>>,
    events: Seq<LifecycleEvent>,
    id: u64,
)
    ensures
        ({
            let (out1, ev1) = close_step(outbound, events, id);
            let (out2, ev2) = close_step(out1, ev1, id);
            &&& out2 == out1
            &&& ev2 == ev1
            &&& !out1.contains_key(id)
            &&& outbound.contains_key(id) ==> ev1 == events.push(
                LifecycleEvent::Disconnected(id),
            )
            &&& !outbound.contains_key(id) ==> ev1 == events
        }),
{
}

/// The connection multiplexer's shared state.
pub struct NetworkManager {
    /// Registry of live clients; each record is that client's outbound
    /// queue, consumed by the connection's writer.
    clients: ClientStore<Vec<Message>>,
    /// Inbound messages from all clients, aggregated in arrival order and
    /// drained once per application tick.
    inbound: Vec<ServerMessageEvent>,
    /// Lifecycle notifications, in the order the transitions happened.
    lifecycle: Vec<LifecycleEvent>,
}

impl NetworkManager {
    /// Well-formedness of the whole multiplexer.
    pub closed spec fn wf(&self) -> bool {
        self.clients.wf()
    }

    /// The registered clients and their pending outbound messages.
    pub closed spec fn outbound(&self) -> Map<u64, Seq<MessageView>> {
        self.clients@.map_values(|q: Vec<Message>| queue_view(q@))
    }

    /// The registered identifiers in the registry's dense order.
    pub closed spec fn client_order(&self) -> Seq<u64> {
        self.clients.key_seq()
    }

    /// The pending inbound messages, oldest first.
    pub closed spec fn inbound_view(&self) -> Seq<(u64, MessageView)> {
        messages_view(self.inbound@)
    }

    /// The pending lifecycle events, oldest first.
    pub closed spec fn events(&self) -> Seq<LifecycleEvent> {
        self.lifecycle@
    }

    /// Creates a multiplexer with no clients and empty queues.
    pub fn new() -> (r: Self)
        ensures
            r.wf(),
            r.outbound() == Map::<u64, Seq<MessageView>>::empty(),
            r.client_order() == Seq::<u64>::empty(),
            r.inbound_view() == Seq::<(u64, MessageView)>::empty(),
            r.events() == Seq::<LifecycleEvent>::empty(),
    {
        let r = NetworkManager {
            clients: ClientStore::new(),
            inbound: Vec::new(),
            lifecycle: Vec::new(),
        };
        proof {
            assert(r.outbound() =~= Map::<u64, Seq<MessageView>>::empty());
            assert(r.inbound_view() =~= Seq::<(u64, MessageView)>::empty());
        }
        r
    }

    /// Registers a freshly connected client: a new empty outbound queue is
    /// inserted into the registry first, then the `Connected` event is
    /// emitted. A duplicate identifier replaces the prior record.
    pub fn client_connected(&mut self, id: u64)
        requires
            old(self).wf(),
        ensures
            final(self).wf(),
            final(self).outbound() == old(self).outbound().insert(id, Seq::<MessageView>::empty()),
            final(self).events() == old(self).events().push(LifecycleEvent::Connected(id)),
            final(self).inbound_view() == old(self).inbound_view(),
    {
        self.clients.push(id, Vec::new());
        self.lifecycle.push(LifecycleEvent::Connected(id));
        proof {
            assert(self.outbound() =~= old(self).outbound().insert(
                id,
                Seq::<MessageView>::empty(),
            )) by {
                assert(queue_view(Seq::<Message>::empty()) =~= Seq::<MessageView>::empty());
            }
        }
    }

    /// Takes one decoded frame arriving from the connection of `id` and
    /// routes it: text and binary payloads join the inbound queue; a close
    /// frame deregisters the client and emits its `Disconnected` event, a
    /// second close for the same identifier being a no-op; control frames
    /// carry nothing for the application and are dropped.
    pub fn client_frame(&mut self, id: u64, frame: WireFrame)
        requires
            old(self).wf(),
        ensures
            final(self).wf(),
            match frame@ {
                WireFrameView::Text(t) => {
                    &&& final(self).inbound_view() == old(self).inbound_view().push(
                        (id, MessageView::Text(t)),
                    )
                    &&& final(self).outbound() == old(self).outbound()
                    &&& final(self).events() == old(self).events()
                },
                WireFrameView::Binary(b) => {
                    &&& final(self).inbound_view() == old(self).inbound_view().push(
                        (id, MessageView::Binary(b)),
                    )
                    &&& final(self).outbound() == old(self).outbound()
                    &&& final(self).events() == old(self).events()
                },
                WireFrameView::Close => {
                    &&& (final(self).outbound(), final(self).events()) == close_step(
                        old(self).outbound(),
                        old(self).events(),
                        id,
                    )
                    &&& final(self).inbound_view() == old(self).inbound_view()
                },
                _ => {
                    &&& final(self).inbound_view() == old(self).inbound_view()
                    &&& final(self).outbound() == old(self).outbound()
                    &&& final(self).events() == old(self).events()
                },
            },
    {
        match frame {
            WireFrame::Text(txt) => {
                self.inbound.push(ServerMessageEvent(id, Message::Text(txt)));
                proof {
                    assert(self.inbound_view() =~= old(self).inbound_view().push(
                        self.inbound_view().last(),
                    ));
                }
            },
            WireFrame::Binary(bin) => {
                self.inbound.push(ServerMessageEvent(id, Message::Binary(bin)));
                proof {
                    assert(self.inbound_view() =~= old(self).inbound_view().push(
                        self.inbound_view().last(),
                    ));
                }
            },
            WireFrame::Close => {
                let removed = self.clients.remove(&id);
                match removed {
                    Some(_) => {
                        self.lifecycle.push(LifecycleEvent::Disconnected(id));
                        proof {
                            assert(self.outbound() =~= old(self).outbound().remove(id));
                        }
                    },
                    None => {},
                }
            },
            WireFrame::Ping(_) => {},
            WireFrame::Pong(_) => {},
        }
    }

    /// Enqueues `message` for the client identified by `client_id`; if that
    /// client is not registered, the message is silently dropped, by design.
    /// No other client's queue is touched.
    pub fn send_message_to_client(&mut self, message: Message, client_id: u64)
        requires
            old(self).wf(),
        ensures
            final(self).wf(),
            final(self).inbound_view() == old(self).inbound_view(),
            final(self).events() == old(self).events(),
            final(self).client_order() == old(self).client_order(),
            old(self).outbound().contains_key(client_id) ==> final(self).outbound() == old(
                self,
            ).outbound().insert(client_id, old(self).outbound()[client_id].push(message@)),
            !old(self).outbound().contains_key(client_id) ==> final(self).outbound() == old(
                self,
            ).outbound(),
    {
        let ghost m = message@;
        match self.clients.position(&client_id) {
            Some(i) => {
                let q = self.clients.iter_mut(i);
                q.push(message);
                proof {
                    let oldq = old(self).clients@[client_id]@;
                    let newq = self.clients@[client_id]@;
                    assert(newq == oldq.push(newq.last()) && newq.last()@ == m);
                    assert(queue_view(newq) =~= queue_view(oldq).push(m));
                    assert(self.outbound() =~= old(self).outbound().insert(
                        client_id,
                        old(self).outbound()[client_id].push(m),
                    )) by {
                        assert forall|k: u64|
                            self.outbound().contains_key(k) && k != client_id implies self.clients@[k]
                            == old(self).clients@[k] by {}
                    }
                }
            },
            None => {},
        }
    }

    /// Enqueues `message` into the outbound queue of every currently
    /// registered client, each exactly once. A client not registered when
    /// the call begins receives nothing from it.
    pub fn send_message_to_all(&mut self, message: Message)
        requires
            old(self).wf(),
        ensures
            final(self).wf(),
            final(self).inbound_view() == old(self).inbound_view(),
            final(self).events() == old(self).events(),
            final(self).client_order() == old(self).client_order(),
            final(self).outbound().dom() == old(self).outbound().dom(),
            forall|k: u64|
                #[trigger] old(self).outbound().contains_key(k) ==> final(self).outbound()[k]
                    == old(self).outbound()[k].push(message@),
    {
        let ghost m = message@;
        proof {
            old(self).clients.lemma_dense_layout();
        }
        let n = self.clients.len();
        let mut i: usize = 0;
        while i < n
            invariant
                self.clients.wf(),
                n == self.clients.key_seq().len(),
                0 <= i <= n,
                self.clients.key_seq() == old(self).clients.key_seq(),
                self.inbound@ == old(self).inbound@,
                self.lifecycle@ == old(self).lifecycle@,
                m == message@,
                self.clients.val_seq().len() == n,
                old(self).clients.val_seq().len() == n,
                forall|j: int|
                    0 <= j < i ==> queue_view((#[trigger] self.clients.val_seq()[j])@)
                        == queue_view(old(self).clients.val_seq()[j]@).push(m),
                forall|j: int|
                    i <= j < n ==> #[trigger] self.clients.val_seq()[j] == old(
                        self,
                    ).clients.val_seq()[j],
            decreases n - i,
        {
            let q = self.clients.iter_mut(i);
            q.push(message.clone());
            proof {
                assert(queue_view(self.clients.val_seq()[i as int]@) =~= queue_view(
                    old(self).clients.val_seq()[i as int]@,
                ).push(m));
            }
            i += 1;
        }
        proof {
            old(self).clients.lemma_dense_layout();
            self.clients.lemma_dense_layout();
            assert(self.outbound().dom() =~= old(self).outbound().dom()) by {
                assert forall|k: u64| old(self).clients@.contains_key(
                    k,
                ) implies self.clients@.contains_key(k) by {
                    assert(self.clients.key_seq()[old(self).clients.spec_index_of(k)] == k);
                }
                assert forall|k: u64| self.clients@.contains_key(k) implies old(
                    self,
                ).clients@.contains_key(k) by {
                    assert(old(self).clients.key_seq()[self.clients.spec_index_of(k)] == k);
                }
            }
            assert forall|k: u64| #[trigger]
                old(self).outbound().contains_key(k) implies self.outbound()[k] == old(
                self,
            ).outbound()[k].push(m) by {
                let j = old(self).clients.spec_index_of(k);
                assert(self.clients.key_seq()[j] == k);
                assert(self.clients.spec_index_of(k) == j);
                assert(self.clients@[k] == self.clients.val_seq()[j]);
                assert(old(self).clients@[k] == old(self).clients.val_seq()[j]);
                assert(queue_view(self.clients.val_seq()[j]@) == queue_view(
                    old(self).clients.val_seq()[j]@,
                ).push(m));
            }
        }
    }

    /// Hands out everything queued for the client identified by `id` and
    /// leaves its queue empty, in the order the messages were enqueued; for
    /// an unregistered client the result is empty. The connection's writer
    /// consumes this.
    pub fn take_outbound(&mut self, id: u64) -> (r: Vec<Message>)
        requires
            old(self).wf(),
        ensures
            final(self).wf(),
            final(self).inbound_view() == old(self).inbound_view(),
            final(self).events() == old(self).events(),
            final(self).client_order() == old(self).client_order(),
            old(self).outbound().contains_key(id) ==> queue_view(r@) == old(self).outbound()[id]
                && final(self).outbound() == old(self).outbound().insert(
                id,
                Seq::<MessageView>::empty(),
            ),
            !old(self).outbound().contains_key(id) ==> r@ == Seq::<Message>::empty()
                && final(self).outbound() == old(self).outbound(),
    {
        match self.clients.position(&id) {
            Some(i) => {
                let mut out: Vec<Message> = Vec::new();
                let q = self.clients.iter_mut(i);
                core::mem::swap(q, &mut out);
                proof {
                    assert(queue_view(out@) =~= old(self).outbound()[id]);
                    assert(self.outbound() =~= old(self).outbound().insert(
                        id,
                        Seq::<MessageView>::empty(),
                    )) by {
                        assert(queue_view(self.clients@[id]@) =~= Seq::<MessageView>::empty());
                        assert forall|k: u64|
                            self.outbound().contains_key(k) && k != id implies self.clients@[k]
                            == old(self).clients@[k] by {}
                    }
                }
                out
            },
            None => {
                Vec::new()
            },
        }
    }

    /// Hands the application everything that arrived from the clients since
    /// the last drain, oldest first, and leaves the inbound queue empty.
    /// Finite and non-blocking; called once per application tick.
    pub fn drain_messages(&mut self) -> (r: Vec<ServerMessageEvent>)
        requires
            old(self).wf(),
        ensures
            final(self).wf(),
            messages_view(r@) == old(self).inbound_view(),
            final(self).inbound_view() == Seq::<(u64, MessageView)>::empty(),
            final(self).outbound() == old(self).outbound(),
            final(self).client_order() == old(self).client_order(),
            final(self).events() == old(self).events(),
    {
        let mut out: Vec<ServerMessageEvent> = Vec::new();
        core::mem::swap(&mut self.inbound, &mut out);
        proof {
            assert(self.inbound_view() =~= Seq::<(u64, MessageView)>::empty());
        }
        out
    }

    /// Hands the application the lifecycle events that happened since the
    /// last drain, oldest first, and leaves the event queue empty. Finite
    /// and non-blocking; called once per application tick.
    pub fn drain_lifecycle_events(&mut self) -> (r: Vec<LifecycleEvent>)
        requires
            old(self).wf(),
        ensures
            final(self).wf(),
            r@ == old(self).events(),
            final(self).events() == Seq::<LifecycleEvent>::empty(),
            final(self).outbound() == old(self).outbound(),
            final(self).client_order() == old(self).client_order(),
            final(self).inbound_view() == old(self).inbound_view(),
    {
        let mut out: Vec<LifecycleEvent> = Vec::new();
        core::mem::swap(&mut self.lifecycle, &mut out);
        out
    }

    /// Whether the client identified by `id` is currently registered.
    pub fn is_registered(&self, id: u64) -> (r: bool)
        requires
            self.wf(),
        ensures
            r == self.outbound().contains_key(id),
    {
        match self.clients.position(&id) {
            Some(_) => true,
            None => false,
        }
    }
}

} // verus!
