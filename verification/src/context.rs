//! The engine context: the root of the handle hierarchy.
//!
//! A context owns the single native engine handle of a process-local
//! session and must release it exactly once.  It also owns the engine's
//! out-of-band error channel: after any failing call the engine leaves a
//! numeric code and a message in a per-context slot, and the adapter here
//! pairs the two into a typed error.  The channel is one shared slot per
//! context, so callers that interleave failing calls on several sessions of
//! one context must serialize them; this layer reads the slot immediately
//! after the outcome it explains, and never between unrelated calls.
//!
//! Every operation that the engine decides takes the engine's answer as a
//! plain value: the return code of the native call, or the marshalled
//! contents of the handle or list it produced, or `None` where the engine
//! produced none.  The contract of each operation then pins the result for
//! every possible answer.

use vstd::prelude::*;

use crate::errors::{ErrorView, LvmError, LvmResult};
use crate::ids::{uuid_parse, Uuid};
use crate::list::IntrusiveList;
use crate::mode::OpenMode;
use crate::names;
use crate::params::{ParamsView, PhysicalVolumeCreateParameters};
use crate::vg::{opened_from, snapshot_ok, snapshot_wf, VgSnapshot, VolumeGroup};

verus! {

/// Relies on `errno::errno`: reads the calling thread's last OS error
/// code.  The value depends on the environment, so nothing is promised
/// of it.
#[verifier::external_body]
fn current_errno() -> i32 {
    errno::errno().0
}

/// Spec-level image of an engine context.
pub ghost struct LvmView {
    /// Whether the native engine handle is still held.
    pub live: bool,
    /// The error channel's current code.
    pub error_code: int,
    /// The error channel's current message.
    pub error_message: Seq<char>,
}

/// The typed error that the context's error channel currently explains.
pub open spec fn engine_error_view(v: LvmView) -> ErrorView {
    ErrorView::Engine { code: v.error_code, message: v.error_message }
}

/// The engine context for one process-local session.
///
/// Owns the native engine handle (at most one, released exactly once) and
/// the context-scoped error channel.  Sessions and member handles all
/// derive from a context and must not outlive it.
#[derive(Debug)]
pub struct Lvm {
    live: bool,
    error_code: i32,
    error_message: String,
}

impl View for Lvm {
    type V = LvmView;

    closed spec fn view(&self) -> LvmView {
        LvmView {
            live: self.live,
            error_code: self.error_code as int,
            error_message: self.error_message@,
        }
    }
}

impl Lvm {
    /// Initialize the engine, optionally under an alternate configuration
    /// directory.
    ///
    /// `init_ok` is the engine's answer: whether initialization produced a
    /// handle.  A missing handle is an allocation failure carrying the
    /// process-wide error code of that moment, since no context-scoped
    /// error channel exists yet.  A configuration directory with an
    /// embedded NUL is rejected locally.
    pub fn new(system_dir: Option<&str>, init_ok: bool) -> (r: LvmResult<Lvm>)
        ensures
            r is Ok <==> ((system_dir matches Some(d) ==> !names::has_nul(d@)) && init_ok),
            r is Ok ==> r->Ok_0@ == (LvmView {
                live: true,
                error_code: 0,
                error_message: Seq::<char>::empty(),
            }),
            (system_dir matches Some(d) && names::has_nul(d@)) ==> r->Err_0@ is Validation,
            ((system_dir matches Some(d) ==> !names::has_nul(d@)) && !init_ok) ==> r->Err_0@
                is Allocation,
    {
        if let Some(dir) = system_dir {
            if names::str_has_nul(dir) {
                return Err(
                    LvmError::Validation(
                        "the configuration directory holds an embedded NUL".to_owned(),
                    ),
                );
            }
        }
        if !init_ok {
            return Err(LvmError::Allocation(current_errno()));
        }
        Ok(Lvm { live: true, error_code: 0, error_message: String::new() })
    }

    /// Whether the native handle is still held.
    pub fn is_live(&self) -> (r: bool)
        ensures
            r == self@.live,
    {
        self.live
    }

    /// Give up the native handle.
    ///
    /// Safe to call on a context that was already released: the transition
    /// is a no-op then, so the handle is released exactly once.
    pub fn close(&mut self)
        ensures
            final(self)@ == (LvmView { live: false, ..old(self)@ }),
    {
        self.live = false;
    }

    /// Read the error channel: the engine's current code and message for
    /// this context.
    pub fn get_error(&self) -> (r: (i32, String))
        ensures
            r.0 as int == self@.error_code,
            r.1@ == self@.error_message,
    {
        (self.error_code, self.error_message.clone())
    }

    /// Record what the engine left in the error channel after a native
    /// call.  The caller refreshes the slot immediately after the call
    /// whose outcome it explains.
    pub fn set_error(&mut self, code: i32, message: String)
        ensures
            final(self)@ == (LvmView {
                error_code: code as int,
                error_message: message@,
                ..old(self)@
            }),
    {
        self.error_code = code;
        self.error_message = message;
    }

    /// The typed error the channel currently explains.
    pub fn engine_error(&self) -> (r: LvmError)
        ensures
            r@ == engine_error_view(self@),
    {
        LvmError::Engine(self.error_code, self.error_message.clone())
    }

    /// The error-channel adapter: turn a native return code into a typed
    /// outcome, pairing a negative code with the channel's code and
    /// message.
    pub fn check_retcode(&self, retcode: i32) -> (r: LvmResult<()>)
        ensures
            r is Ok <==> retcode >= 0,
            r is Err ==> r->Err_0@ == engine_error_view(self@),
    {
        if retcode < 0 {
            return Err(self.engine_error());
        }
        Ok(())
    }

    /// Enumerate the names of all volume groups known to the engine.
    ///
    /// `reply` is the intrusive list the engine produced, or `None` where
    /// it reported a null list head; a present but empty list is a valid
    /// zero-length result.
    pub fn get_volume_group_names(&self, reply: Option<IntrusiveList<String>>) -> (r: LvmResult<
        Vec<String>,
    >)
        requires
            self@.live,
            reply matches Some(list) ==> list.wf(),
        ensures
            r is Ok <==> reply is Some,
            r is Ok ==> r->Ok_0@ == reply.unwrap()@,
            r is Err ==> r->Err_0@ == engine_error_view(self@),
    {
        match reply {
            None => Err(self.engine_error()),
            Some(list) => Ok(list.into_entries()),
        }
    }

    /// Enumerate the UUIDs of all volume groups known to the engine.
    ///
    /// Each entry of the engine's list is validated locally: an entry that
    /// is not a well-formed UUID is a parse failure, not an engine error.
    pub fn get_volume_group_uuids(&self, reply: Option<IntrusiveList<String>>) -> (r: LvmResult<
        Vec<Uuid>,
    >)
        requires
            self@.live,
            reply matches Some(list) ==> list.wf(),
        ensures
            r is Ok <==> (reply matches Some(list) && forall|i: int|
                0 <= i < list@.len() ==> uuid_parse(#[trigger] list@[i]@) is Some),
            r is Ok ==> {
                let entries = reply.unwrap()@;
                r->Ok_0@.len() == entries.len() && forall|i: int|
                    0 <= i < entries.len() ==> (#[trigger] r->Ok_0@[i])@ == uuid_parse(
                        entries[i]@,
                    ).unwrap()
            },
            reply is None ==> r->Err_0@ == engine_error_view(self@),
            (reply matches Some(list) && exists|i: int|
                0 <= i < list@.len() && uuid_parse(#[trigger] list@[i]@) is None) ==> r->Err_0@
                is Parse,
    {
        let list = match reply {
            None => {
                return Err(self.engine_error());
            },
            Some(list) => list,
        };
        let ghost entries = list@;
        let mut cursor = list.cursor();
        let mut out: Vec<Uuid> = Vec::new();
        let ghost mut done: Seq<String> = Seq::empty();
        loop
            invariant_except_break
                reply is Some,
                entries == reply.unwrap()@,
                cursor.wf(),
                entries == done + cursor.remaining(),
                out@.len() == done.len(),
                forall|i: int| 0 <= i < done.len() ==> uuid_parse(#[trigger] done[i]@) is Some,
                forall|i: int|
                    0 <= i < done.len() ==> (#[trigger] out@[i])@ == uuid_parse(done[i]@).unwrap(),
            ensures
                out@.len() == entries.len(),
                forall|i: int| 0 <= i < entries.len() ==> uuid_parse(#[trigger] entries[i]@)
                    is Some,
                forall|i: int|
                    0 <= i < entries.len() ==> (#[trigger] out@[i])@ == uuid_parse(
                        entries[i]@,
                    ).unwrap(),
            decreases cursor.remaining().len(),
        {
            let ghost pre_rem = cursor.remaining();
            let entry = match cursor.next() {
                None => {
                    proof {
                        assert(done =~= entries);
                    }
                    break;
                },
                Some(entry) => entry,
            };
            let parsed = match Uuid::parse(entry.as_str()) {
                None => {
                    proof {
                        assert(reply is Some);
                        assert(pre_rem[0] == *entry);
                        assert(entries[done.len() as int] == *entry);
                        assert(uuid_parse(entries[done.len() as int]@) is None);
                    }
                    return Err(
                        LvmError::Parse(
                            "the engine reported a volume-group identifier that is not a well-formed UUID".to_owned(),
                        ),
                    );
                },
                Some(parsed) => parsed,
            };
            out.push(parsed);
            proof {
                done = done.push(*entry);
                assert(entries =~= done + cursor.remaining());
            }
        }
        Ok(out)
    }

    /// Create a physical volume on the named device.
    pub fn pv_create(&self, name: &str, size: u64, status: i32) -> (r: LvmResult<()>)
        requires
            self@.live,
        ensures
            r is Ok <==> (!names::has_nul(name@) && status >= 0),
            names::has_nul(name@) ==> r->Err_0@ is Validation,
            !names::has_nul(name@) && status < 0 ==> r->Err_0@ == engine_error_view(self@),
    {
        if names::str_has_nul(name) {
            return Err(LvmError::Validation("the device name holds an embedded NUL".to_owned()));
        }
        self.check_retcode(status)?;
        Ok(())
    }

    /// Remove a physical volume.
    ///
    /// Must not be called while any enumeration of physical volumes is
    /// still walking its list: the engine holds list-scoped locks, and this
    /// layer cannot check that obligation for the caller.
    pub fn pv_remove(&self, name: &str, status: i32) -> (r: LvmResult<()>)
        requires
            self@.live,
        ensures
            r is Ok <==> (!names::has_nul(name@) && status >= 0),
            names::has_nul(name@) ==> r->Err_0@ is Validation,
            !names::has_nul(name@) && status < 0 ==> r->Err_0@ == engine_error_view(self@),
    {
        if names::str_has_nul(name) {
            return Err(LvmError::Validation("the device name holds an embedded NUL".to_owned()));
        }
        self.check_retcode(status)?;
        Ok(())
    }

    /// Scan all devices on the system for volume groups and metadata.
    pub fn scan(&self, status: i32) -> (r: LvmResult<()>)
        requires
            self@.live,
        ensures
            r is Ok <==> status >= 0,
            r is Err ==> r->Err_0@ == engine_error_view(self@),
    {
        self.check_retcode(status)?;
        Ok(())
    }

    /// The name of the volume group a device belongs to, or `None` where
    /// the engine knows of no match; a missing match is not an error.
    pub fn vg_name_from_device(&self, device: &str, reply: Option<String>) -> (r: LvmResult<
        Option<String>,
    >)
        requires
            self@.live,
        ensures
            names::has_nul(device@) ==> r is Err && r->Err_0@ is Validation,
            !names::has_nul(device@) ==> r == Ok::<Option<String>, LvmError>(reply),
    {
        if names::str_has_nul(device) {
            return Err(LvmError::Validation("the device name holds an embedded NUL".to_owned()));
        }
        Ok(reply)
    }

    /// The name of the volume group a physical volume belongs to, looked
    /// up by the volume's UUID; `None` where the engine knows of no match.
    ///
    /// An identifier with a NUL byte cannot travel through the native call
    /// and is rejected locally.
    pub fn vg_name_from_pvid(&self, pvid: &Uuid, reply: Option<String>) -> (r: LvmResult<
        Option<String>,
    >)
        requires
            self@.live,
        ensures
            pvid@.contains(0u8) ==> r is Err && r->Err_0@ is Validation,
            !pvid@.contains(0u8) ==> r == Ok::<Option<String>, LvmError>(reply),
    {
        if pvid.has_nul_byte() {
            return Err(
                LvmError::Validation(
                    "the identifier holds a NUL byte and cannot reach the engine".to_owned(),
                ),
            );
        }
        Ok(reply)
    }

    /// Look up and open a volume group by name, under the requested mode.
    ///
    /// `reply` is the engine's answer: the image of the group at the
    /// moment of the open, or `None` where the engine produced no handle
    /// (not found, locked by another writer, or any other engine-side
    /// refusal).  An image that breaks the engine's own guarantees — a
    /// zero extent size or a duplicate name or tag — is a local parse
    /// failure.
    pub fn vg_open(&self, name: &str, mode: &OpenMode, reply: Option<VgSnapshot>) -> (r: LvmResult<
        VolumeGroup,
    >)
        requires
            self@.live,
        ensures
            names::has_nul(name@) ==> r is Err && r->Err_0@ is Validation,
            !names::has_nul(name@) && reply is None ==> r is Err && r->Err_0@ == engine_error_view(
                self@,
            ),
            !names::has_nul(name@) && reply is Some && !snapshot_wf(reply.unwrap()@) ==> r is Err
                && r->Err_0@ is Parse,
            !names::has_nul(name@) && reply is Some && snapshot_wf(reply.unwrap()@) ==> r is Ok
                && r->Ok_0.wf() && opened_from(r->Ok_0@, name@, *mode, reply.unwrap()@),
    {
        if names::str_has_nul(name) {
            return Err(LvmError::Validation("the group name holds an embedded NUL".to_owned()));
        }
        let snap = match reply {
            None => {
                return Err(self.engine_error());
            },
            Some(snap) => snap,
        };
        if !snapshot_ok(&snap) {
            return Err(
                LvmError::Parse("the engine reported a malformed volume-group image".to_owned()),
            );
        }
        Ok(VolumeGroup::materialize(name.to_owned(), *mode, snap))
    }

    /// Create a volume group in memory, open for writing.
    ///
    /// The name is held to the local naming rules first.  The group is
    /// not yet persisted: the caller extends it with at least one device
    /// and commits it.  `reply` is the engine's answer, as for
    /// [`Lvm::vg_open`].
    pub fn vg_create(&self, name: &str, reply: Option<VgSnapshot>) -> (r: LvmResult<VolumeGroup>)
        requires
            self@.live,
        ensures
            (names::has_nul(name@) || !names::valid_name(name@)) ==> r is Err && r->Err_0@
                is Validation,
            !names::has_nul(name@) && names::valid_name(name@) && reply is None ==> r is Err
                && r->Err_0@ == engine_error_view(self@),
            !names::has_nul(name@) && names::valid_name(name@) && reply is Some && !snapshot_wf(
                reply.unwrap()@,
            ) ==> r is Err && r->Err_0@ is Parse,
            !names::has_nul(name@) && names::valid_name(name@) && reply is Some && snapshot_wf(
                reply.unwrap()@,
            ) ==> r is Ok && r->Ok_0.wf() && opened_from(
                r->Ok_0@,
                name@,
                OpenMode::Write,
                reply.unwrap()@,
            ),
    {
        if names::str_has_nul(name) {
            return Err(LvmError::Validation("the group name holds an embedded NUL".to_owned()));
        }
        if !names::is_valid_name(name) {
            return Err(LvmError::Validation("the group name breaks the naming rules".to_owned()));
        }
        let snap = match reply {
            None => {
                return Err(self.engine_error());
            },
            Some(snap) => snap,
        };
        if !snapshot_ok(&snap) {
            return Err(
                LvmError::Parse("the engine reported a malformed volume-group image".to_owned()),
            );
        }
        Ok(VolumeGroup::materialize(name.to_owned(), OpenMode::Write, snap))
    }

    /// Ask the engine for a parameter set for creating the named physical
    /// volume; `created_ok` is whether it produced one.
    pub fn pv_create_params(&self, pv_name: &str, created_ok: bool) -> (r: LvmResult<
        PhysicalVolumeCreateParameters,
    >)
        requires
            self@.live,
        ensures
            names::has_nul(pv_name@) ==> r is Err && r->Err_0@ is Validation,
            !names::has_nul(pv_name@) && !created_ok ==> r is Err && r->Err_0@
                == engine_error_view(self@),
            !names::has_nul(pv_name@) && created_ok ==> r is Ok && r->Ok_0@ == (ParamsView {
                pv_name: pv_name@,
                property_value: None,
            }),
    {
        if names::str_has_nul(pv_name) {
            return Err(LvmError::Validation("the device name holds an embedded NUL".to_owned()));
        }
        if !created_ok {
            return Err(self.engine_error());
        }
        Ok(PhysicalVolumeCreateParameters::new_params(pv_name.to_owned()))
    }

    /// Check a prospective volume-group name: the local naming rules
    /// first, then the engine's verdict, which also covers uniqueness
    /// against the groups that exist.
    pub fn vg_name_validate(&self, name: &str, status: i32) -> (r: LvmResult<()>)
        requires
            self@.live,
        ensures
            r is Ok <==> (!names::has_nul(name@) && names::valid_name(name@) && status >= 0),
            (names::has_nul(name@) || !names::valid_name(name@)) ==> r->Err_0@ is Validation,
            !names::has_nul(name@) && names::valid_name(name@) && status < 0 ==> r->Err_0@
                == engine_error_view(self@),
    {
        if names::str_has_nul(name) {
            return Err(LvmError::Validation("the name holds an embedded NUL".to_owned()));
        }
        if !names::is_valid_name(name) {
            return Err(LvmError::Validation("the name breaks the naming rules".to_owned()));
        }
        self.check_retcode(status)?;
        Ok(())
    }
}

} // verus!
