use vstd::prelude::*;

use crate::message::Message;
use crate::output_head::ExtensionHeadEvent;
use crate::output_mode::OutputMode;
use crate::output_head::HeadEvent;
use crate::output_head::ModeEvent;
use crate::output_head::OutputHead;
use crate::output_head::spec_extension_event_rel;
use crate::output_head::spec_head_event_rel;
use crate::output_head::spec_mode_event_rel;
use crate::output_head::spec_mode_removed_rel;

verus! {

/// The base protocol manager must be at least this version to be driven.
pub const LOWEST_SUPPORTED_VERSION: u32 = 2;

/// The highest base-protocol version this library knows; the bind is
/// clamped to it.
pub const HIGHEST_KNOWN_VERSION: u32 = 4;

/// The highest vendor-extension version this library knows.
pub const HIGHEST_KNOWN_EXTENSION_VERSION: u32 = 3;

/// Heads and modes gained an explicit release request in this base
/// protocol version; earlier peers do not support it.
pub const RELEASE_SINCE_VERSION: u32 = 3;

/// Something the embedding program must do on the connection after an
/// event was folded into the model: deliver a message, bind a manager,
/// request the extension's paired head object or a round-trip marker,
/// release a remote object, or stop the manager.
#[derive(Clone, Copy, Debug, PartialEq, Eq)]
pub enum Action {
    Send(Message),
    BindManager(u32),
    BindExtension(u32),
    CreateExtensionHead(u64),
    CreateSyncCallback,
    ReleaseHead(u64),
    ReleaseMode(u64),
    StopManager,
}

/// A terminal event for a finalized configuration, as the remote side
/// reports it.
#[derive(Clone, Copy, Debug, PartialEq, Eq, Structural)]
pub enum ConfigOutcome {
    Succeeded,
    Failed,
    Cancelled,
}

/// The protocol object model: mirrors of the remote Manager and its heads,
/// rebuilt from streamed events.  `serial` is the configuration serial the
/// last snapshot carried; `version` the advertised base-protocol version;
/// `sync_pending` whether a round-trip marker is still owed after
/// requesting extension head objects; `done_queued` whether a Done event
/// waits on that marker before it may be surfaced.
pub struct Model {
    pub manager_bound: bool,
    pub extension_bound: bool,
    pub serial: u32,
    pub version: u32,
    pub extension_version: u32,
    pub heads: Vec<OutputHead>,
    pub sync_pending: bool,
    pub done_queued: bool,
}

/// Whether some mirrored head carries the given protocol identifier.
pub open spec fn spec_has_head(s: Seq<OutputHead>, id: u64) -> bool {
    exists|i: int| 0 <= i < s.len() && s[i].id == id
}

/// The index of the head with the given identifier; meaningful where the
/// identifier is held and, as in a well-formed model, held once.
pub open spec fn spec_head_index_of(s: Seq<OutputHead>, id: u64) -> int {
    choose|i: int| 0 <= i < s.len() && s[i].id == id
}

/// A head exactly as a Head announcement first creates it.
pub open spec fn spec_fresh_head(h: OutputHead, id: u64, has_extension_head: bool) -> bool {
    &&& h.id == id
    &&& h.has_extension_head == has_extension_head
    &&& h.adaptive_sync is None
    &&& h.adaptive_sync_support is None
    &&& h.current_mode is None
    &&& h.description@ == Seq::<char>::empty()
    &&& !h.enabled
    &&& h.make@ == Seq::<char>::empty()
    &&& h.model@ == Seq::<char>::empty()
    &&& h.modes@ == Seq::<OutputMode>::empty()
    &&& h.name@ == Seq::<char>::empty()
    &&& h.physical_height == 0
    &&& h.physical_width == 0
    &&& h.position_x == 0
    &&& h.position_y == 0
    &&& h.scale_1000 == 1000
    &&& h.serial_number@ == Seq::<char>::empty()
    &&& h.transform is None
    &&& h.mirroring is None
    &&& h.xwayland_primary is None
}

/// Finds the first mirrored head with the given identifier.
pub fn find_head_index(heads: &Vec<OutputHead>, id: u64) -> (r: Option<usize>)
    ensures
        r is Some <==> spec_has_head(heads@, id),
        match r {
            Some(i) => 0 <= i < heads@.len() && heads@[i as int].id == id && forall|p: int|
                0 <= p < i ==> heads@[p].id != id,
            None => !spec_has_head(heads@, id),
        },
{
    let mut k: usize = 0;
    while k < heads.len()
        invariant
            0 <= k <= heads@.len(),
            forall|p: int| 0 <= p < k ==> heads@[p].id != id,
        decreases heads@.len() - k,
    {
        if heads[k].id == id {
            return Some(k);
        }
        k = k + 1;
    }
    None
}

/// The message a configuration outcome is surfaced as.
pub open spec fn spec_outcome_message(o: ConfigOutcome) -> Message {
    match o {
        ConfigOutcome::Succeeded => Message::ConfigurationSucceeded,
        ConfigOutcome::Failed => Message::ConfigurationFailed,
        ConfigOutcome::Cancelled => Message::ConfigurationCancelled,
    }
}

/// Maps a terminal configuration outcome to the message delivered to the
/// caller; the embedding program also destroys the remote transaction
/// object, so each transaction yields exactly one terminal message.
pub fn outcome_message(o: ConfigOutcome) -> (m: Message)
    ensures
        m == spec_outcome_message(o),
{
    match o {
        ConfigOutcome::Succeeded => Message::ConfigurationSucceeded,
        ConfigOutcome::Failed => Message::ConfigurationFailed,
        ConfigOutcome::Cancelled => Message::ConfigurationCancelled,
    }
}

impl Model {
    /// Well-formedness: each mirrored head identifier occurs once and
    /// every head is itself well-formed.  Every handler keeps this — so,
    /// over any received event sequence, a head's current mode never
    /// dangles.
    pub open spec fn wf(self) -> bool {
        &&& forall|p: int, q: int|
            0 <= p < q < self.heads@.len() ==> self.heads@[p].id != self.heads@[q].id
        &&& forall|i: int| 0 <= i < self.heads@.len() ==> #[trigger] self.heads@[i].wf()
    }

    /// All model fields other than the mirrored heads agree.
    pub open spec fn spec_same_but_heads(m1: Model, m0: Model) -> bool {
        m1 == (Model { heads: m1.heads, ..m0 })
    }

    /// A fresh model: nothing bound, nothing mirrored.
    pub fn new() -> (m: Model)
        ensures
            m.wf(),
            !m.manager_bound,
            !m.extension_bound,
            m.serial == 0,
            m.version == 0,
            m.extension_version == 0,
            m.heads@ == Seq::<OutputHead>::empty(),
            !m.sync_pending,
            !m.done_queued,
    {
        Model {
            manager_bound: false,
            extension_bound: false,
            serial: 0,
            version: 0,
            extension_version: 0,
            heads: Vec::new(),
            sync_pending: false,
            done_queued: false,
        }
    }

    /// Folds in one registry Global advertisement.  The base manager is
    /// bound at the highest version both sides know, unless the peer is
    /// older than the lowest this library drives, which only emits
    /// `Unsupported`; the vendor extension is bound opportunistically.
    pub fn handle_global(&mut self, interface: &String, version: u32) -> (a: Vec<Action>)
        requires
            old(self).wf(),
        ensures
            final(self).wf(),
            final(self).heads == old(self).heads,
            interface@ == "zwlr_output_manager_v1"@ && version < LOWEST_SUPPORTED_VERSION ==> {
                &&& *final(self) == *old(self)
                &&& a@ == seq![Action::Send(Message::Unsupported)]
            },
            interface@ == "zwlr_output_manager_v1"@ && version >= LOWEST_SUPPORTED_VERSION ==> {
                &&& *final(self) == (Model {
                    manager_bound: true,
                    version,
                    ..*old(self)
                })
                &&& a@ == seq![
                    Action::BindManager(
                        if version < HIGHEST_KNOWN_VERSION {
                            version
                        } else {
                            HIGHEST_KNOWN_VERSION
                        },
                    ),
                ]
            },
            interface@ == "zcosmic_output_manager_v1"@ ==> {
                &&& *final(self) == (Model {
                    extension_bound: true,
                    extension_version: if version < HIGHEST_KNOWN_EXTENSION_VERSION {
                        version
                    } else {
                        HIGHEST_KNOWN_EXTENSION_VERSION
                    },
                    ..*old(self)
                })
                &&& a@ == seq![
                    Action::BindExtension(
                        if version < HIGHEST_KNOWN_EXTENSION_VERSION {
                            version
                        } else {
                            HIGHEST_KNOWN_EXTENSION_VERSION
                        },
                    ),
                ]
            },
            interface@ != "zwlr_output_manager_v1"@ && interface@ != "zcosmic_output_manager_v1"@
                ==> *final(self) == *old(self) && a@ == Seq::<Action>::empty(),
    {
        proof {
            reveal_strlit("zwlr_output_manager_v1");
            reveal_strlit("zcosmic_output_manager_v1");
            assert("zwlr_output_manager_v1"@.len() == 22);
            assert("zcosmic_output_manager_v1"@.len() == 25);
        }
        let mut actions: Vec<Action> = Vec::new();
        if *interface == "zwlr_output_manager_v1".to_owned() {
            if version < LOWEST_SUPPORTED_VERSION {
                actions.push(Action::Send(Message::Unsupported));
                return actions;
            }
            self.version = version;
            self.manager_bound = true;
            let bind = if version < HIGHEST_KNOWN_VERSION {
                version
            } else {
                HIGHEST_KNOWN_VERSION
            };
            actions.push(Action::BindManager(bind));
        }
        if *interface == "zcosmic_output_manager_v1".to_owned() {
            self.extension_bound = true;
            let bind = if version < HIGHEST_KNOWN_EXTENSION_VERSION {
                version
            } else {
                HIGHEST_KNOWN_EXTENSION_VERSION
            };
            self.extension_version = bind;
            actions.push(Action::BindExtension(bind));
        }
        actions
    }

    /// Folds in a Manager Head announcement: the new head is mirrored
    /// (replacing any stale entry under the same identifier) before any of
    /// its own events arrive.  With the extension bound, its paired head
    /// object and a round-trip marker are requested, and Done completion
    /// is deferred until the marker lands.
    pub fn handle_manager_head(&mut self, head_id: u64) -> (a: Vec<Action>)
        requires
            old(self).wf(),
        ensures
            final(self).wf(),
            Self::spec_same_but_heads(*final(self), Model {
                sync_pending: old(self).sync_pending || old(self).extension_bound,
                ..*old(self)
            }),
            spec_has_head(final(self).heads@, head_id),
            ({
                let h = final(self).heads@[spec_head_index_of(final(self).heads@, head_id)];
                &&& spec_fresh_head(h, head_id, old(self).extension_bound)
                &&& if spec_has_head(old(self).heads@, head_id) {
                    final(self).heads@ == old(self).heads@.update(
                        spec_head_index_of(old(self).heads@, head_id),
                        h,
                    )
                } else {
                    final(self).heads@ == old(self).heads@.push(h)
                }
            }),
            a@ == if old(self).extension_bound {
                seq![Action::CreateExtensionHead(head_id), Action::CreateSyncCallback]
            } else {
                Seq::<Action>::empty()
            },
    {
        let mut actions: Vec<Action> = Vec::new();
        let head = OutputHead::new(head_id, self.extension_bound);
        if self.extension_bound {
            actions.push(Action::CreateExtensionHead(head_id));
            actions.push(Action::CreateSyncCallback);
            self.sync_pending = true;
        }
        match find_head_index(&self.heads, head_id) {
            Some(k) => {
                self.heads[k] = head;
                proof {
                    assert(spec_head_index_of(old(self).heads@, head_id) == k as int);
                    assert(spec_head_index_of(self.heads@, head_id) == k as int);
                }
            },
            None => {
                self.heads.push(head);
                proof {
                    let n = self.heads@.len() - 1;
                    assert(self.heads@[n].id == head_id);
                    assert(spec_head_index_of(self.heads@, head_id) == n);
                    assert forall|p: int, q: int|
                        0 <= p < q < self.heads@.len() implies self.heads@[p].id
                        != self.heads@[q].id by {
                        if q == n {
                            assert(self.heads@[p] == old(self).heads@[p]);
                            if old(self).heads@[p].id == head_id {
                                assert(spec_has_head(old(self).heads@, head_id));
                            }
                        }
                    }
                }
            },
        }
        actions
    }

    /// Folds in a Manager Done event: the new configuration serial is
    /// captured; the snapshot-complete message is delivered at once, or
    /// queued behind the pending round-trip marker so callers never read
    /// extension fields that are merely not yet delivered.
    pub fn handle_manager_done(&mut self, serial: u32) -> (a: Vec<Action>)
        requires
            old(self).wf(),
        ensures
            final(self).wf(),
            old(self).sync_pending ==> *final(self) == (Model {
                serial,
                done_queued: true,
                ..*old(self)
            }) && a@ == Seq::<Action>::empty(),
            !old(self).sync_pending ==> *final(self) == (Model { serial, ..*old(self) }) && a@
                == seq![Action::Send(Message::ManagerDone)],
    {
        self.serial = serial;
        let mut actions: Vec<Action> = Vec::new();
        if self.sync_pending {
            self.done_queued = true;
        } else {
            actions.push(Action::Send(Message::ManagerDone));
        }
        actions
    }

    /// Folds in a Manager Finished event: the manager and its serial are
    /// gone; the teardown message is delivered.
    pub fn handle_manager_finished(&mut self) -> (a: Vec<Action>)
        requires
            old(self).wf(),
        ensures
            final(self).wf(),
            *final(self) == (Model { manager_bound: false, serial: 0, ..*old(self) }),
            a@ == seq![Action::Send(Message::ManagerFinished)],
    {
        self.manager_bound = false;
        self.serial = 0;
        let mut actions: Vec<Action> = Vec::new();
        actions.push(Action::Send(Message::ManagerFinished));
        actions
    }

    /// Folds in the round-trip marker's completion: extension events for
    /// freshly announced heads have arrived, so a deferred Done may now be
    /// surfaced.
    pub fn handle_sync_done(&mut self) -> (a: Vec<Action>)
        requires
            old(self).wf(),
        ensures
            final(self).wf(),
            *final(self) == (Model {
                sync_pending: false,
                done_queued: false,
                ..*old(self)
            }),
            a@ == if old(self).done_queued {
                seq![Action::Send(Message::ManagerDone)]
            } else {
                Seq::<Action>::empty()
            },
    {
        self.sync_pending = false;
        let mut actions: Vec<Action> = Vec::new();
        if self.done_queued {
            actions.push(Action::Send(Message::ManagerDone));
            self.done_queued = false;
        }
        actions
    }

    /// Folds in one Head event for the mirrored head with the given
    /// identifier.  A Finished event releases the remote head (on peers
    /// new enough to support release) and drops the mirror; any other
    /// event updates the head as [`spec_head_event_rel`] states.
    pub fn handle_head_event(&mut self, head_id: u64, event: HeadEvent) -> (a: Vec<Action>)
        requires
            old(self).wf(),
            spec_has_head(old(self).heads@, head_id),
        ensures
            final(self).wf(),
            Self::spec_same_but_heads(*final(self), *old(self)),
            ({
                let k = spec_head_index_of(old(self).heads@, head_id);
                match event {
                    HeadEvent::Finished => {
                        &&& final(self).heads@ == old(self).heads@.remove(k)
                        &&& a@ == if old(self).version >= RELEASE_SINCE_VERSION {
                            seq![Action::ReleaseHead(head_id)]
                        } else {
                            Seq::<Action>::empty()
                        }
                    },
                    _ => {
                        &&& final(self).heads@ == old(self).heads@.update(
                            k,
                            final(self).heads@[k],
                        )
                        &&& spec_head_event_rel(old(self).heads@[k], final(self).heads@[k], event)
                        &&& a@ == Seq::<Action>::empty()
                    },
                }
            }),
    {
        let mut actions: Vec<Action> = Vec::new();
        let k = match find_head_index(&self.heads, head_id) {
            Some(k) => k,
            None => {
                proof {
                    assert(false);
                }
                return actions;
            },
        };
        proof {
            assert(spec_head_index_of(old(self).heads@, head_id) == k as int);
        }
        if matches!(event, HeadEvent::Finished) {
            if self.version >= RELEASE_SINCE_VERSION {
                actions.push(Action::ReleaseHead(head_id));
            }
            self.heads.remove(k);
            proof {
                old(self).heads@.remove_ensures(k as int);
                assert forall|p: int, q: int|
                    0 <= p < q < self.heads@.len() implies self.heads@[p].id
                    != self.heads@[q].id by {
                    if p < k {
                        assert(self.heads@[p] == old(self).heads@[p]);
                    } else {
                        assert(self.heads@[p] == old(self).heads@[p + 1]);
                    }
                    if q < k {
                        assert(self.heads@[q] == old(self).heads@[q]);
                    } else {
                        assert(self.heads@[q] == old(self).heads@[q + 1]);
                    }
                }
                assert forall|i: int| 0 <= i < self.heads@.len() implies #[trigger] self.heads@[i].wf() by {
                    if i < k {
                        assert(self.heads@[i] == old(self).heads@[i]);
                    } else {
                        assert(self.heads@[i] == old(self).heads@[i + 1]);
                    }
                }
            }
        } else {
            let mut head = self.heads.remove(k);
            head.apply_event(event);
            self.heads.insert(k, head);
            proof {
                assert(self.heads@ =~= old(self).heads@.update(k as int, self.heads@[k as int]));
                assert forall|i: int| 0 <= i < self.heads@.len() implies #[trigger] self.heads@[i].wf() by {
                    if i != k {
                        assert(self.heads@[i] == old(self).heads@[i]);
                    }
                }
            }
        }
        actions
    }

    /// Folds in one extension-head event, routed to the mirrored head the
    /// out-of-band correlation names, as [`spec_extension_event_rel`]
    /// states.
    pub fn handle_extension_head_event(&mut self, head_id: u64, event: ExtensionHeadEvent)
        requires
            old(self).wf(),
            spec_has_head(old(self).heads@, head_id),
        ensures
            final(self).wf(),
            Self::spec_same_but_heads(*final(self), *old(self)),
            ({
                let k = spec_head_index_of(old(self).heads@, head_id);
                &&& final(self).heads@ == old(self).heads@.update(k, final(self).heads@[k])
                &&& spec_extension_event_rel(old(self).heads@[k], final(self).heads@[k], event)
            }),
    {
        let k = match find_head_index(&self.heads, head_id) {
            Some(k) => k,
            None => {
                proof {
                    assert(false);
                }
                return ;
            },
        };
        proof {
            assert(spec_head_index_of(old(self).heads@, head_id) == k as int);
        }
        let mut head = self.heads.remove(k);
        head.apply_extension_event(event);
        self.heads.insert(k, head);
        proof {
            assert(self.heads@ =~= old(self).heads@.update(k as int, self.heads@[k as int]));
            assert forall|i: int| 0 <= i < self.heads@.len() implies #[trigger] self.heads@[i].wf() by {
                if i != k {
                    assert(self.heads@[i] == old(self).heads@[i]);
                }
            }
        }
    }

    /// Folds in one Mode event, routed to the mirrored head recorded for
    /// the mode when it was announced.  An event for a head no longer
    /// mirrored is dropped.  A Finished event releases the remote mode (on
    /// peers new enough) and prunes the entry, clearing a current-mode
    /// reference that pointed at it; any other event updates or creates
    /// the entry as [`spec_mode_event_rel`] states.
    pub fn handle_mode_event(&mut self, head_id: u64, mode_id: u64, event: ModeEvent) -> (a: Vec<
        Action,
    >)
        requires
            old(self).wf(),
        ensures
            final(self).wf(),
            !spec_has_head(old(self).heads@, head_id) ==> *final(self) == *old(self) && a@
                == Seq::<Action>::empty(),
            spec_has_head(old(self).heads@, head_id) ==> Self::spec_same_but_heads(
                *final(self),
                *old(self),
            ) && ({
                let k = spec_head_index_of(old(self).heads@, head_id);
                &&& final(self).heads@ == old(self).heads@.update(k, final(self).heads@[k])
                &&& match event {
                    ModeEvent::Finished => {
                        &&& spec_mode_removed_rel(
                            old(self).heads@[k],
                            final(self).heads@[k],
                            mode_id,
                        )
                        &&& a@ == if old(self).version >= RELEASE_SINCE_VERSION {
                            seq![Action::ReleaseMode(mode_id)]
                        } else {
                            Seq::<Action>::empty()
                        }
                    },
                    _ => {
                        &&& spec_mode_event_rel(
                            old(self).heads@[k],
                            final(self).heads@[k],
                            mode_id,
                            event,
                        )
                        &&& a@ == Seq::<Action>::empty()
                    },
                }
            }),
    {
        let mut actions: Vec<Action> = Vec::new();
        let k = match find_head_index(&self.heads, head_id) {
            Some(k) => k,
            None => {
                return actions;
            },
        };
        proof {
            assert(spec_head_index_of(old(self).heads@, head_id) == k as int);
        }
        let mut head = self.heads.remove(k);
        if matches!(event, ModeEvent::Finished) {
            if self.version >= RELEASE_SINCE_VERSION {
                actions.push(Action::ReleaseMode(mode_id));
            }
            head.remove_mode(mode_id);
        } else {
            head.apply_mode_event(mode_id, event);
        }
        self.heads.insert(k, head);
        proof {
            assert(self.heads@ =~= old(self).heads@.update(k as int, self.heads@[k as int]));
            assert forall|i: int| 0 <= i < self.heads@.len() implies #[trigger] self.heads@[i].wf() by {
                if i != k {
                    assert(self.heads@[i] == old(self).heads@[i]);
                }
            }
        }
        actions
    }

    /// Tears the mirrored state down: every remote head is released
    /// best-effort, the manager is told to stop if one is bound, and the
    /// local mirrors are dropped.
    pub fn clear(&mut self) -> (a: Vec<Action>)
        requires
            old(self).wf(),
        ensures
            final(self).wf(),
            final(self).heads@ == Seq::<OutputHead>::empty(),
            Self::spec_same_but_heads(*final(self), *old(self)),
            a@ == if old(self).manager_bound {
                old(self).heads@.map_values(|h: OutputHead| Action::ReleaseHead(h.id)).push(
                    Action::StopManager,
                )
            } else {
                old(self).heads@.map_values(|h: OutputHead| Action::ReleaseHead(h.id))
            },
    {
        let mut actions: Vec<Action> = Vec::new();
        let mut i: usize = 0;
        while i < self.heads.len()
            invariant
                0 <= i <= self.heads@.len(),
                self.heads@ == old(self).heads@,
                actions@ == old(self).heads@.take(i as int).map_values(
                    |h: OutputHead| Action::ReleaseHead(h.id),
                ),
            decreases self.heads@.len() - i,
        {
            actions.push(Action::ReleaseHead(self.heads[i].id));
            proof {
                assert(old(self).heads@.take(i + 1).map_values(
                    |h: OutputHead| Action::ReleaseHead(h.id),
                ) =~= old(self).heads@.take(i as int).map_values(
                    |h: OutputHead| Action::ReleaseHead(h.id),
                ).push(Action::ReleaseHead(old(self).heads@[i as int].id)));
            }
            i = i + 1;
        }
        proof {
            assert(old(self).heads@.take(old(self).heads@.len() as int) =~= old(self).heads@);
        }
        if self.manager_bound {
            actions.push(Action::StopManager);
        }
        self.heads = Vec::new();
        actions
    }
}

} // verus!
