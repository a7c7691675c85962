//! The parameter set used to create a physical volume with non-default
//! properties.
//!
//! The engine hands out an opaque parameter object for a named device;
//! scalar properties are then fetched and stored back through a get/set
//! pair.  The marshalling itself is the engine's; this layer only tracks
//! which property is staged, because storing a property before fetching
//! one is a caller error.

use vstd::prelude::*;

use crate::context::{engine_error_view, Lvm};
use crate::errors::{LvmError, LvmResult};
use crate::mode::Property;

verus! {

/// Spec-level image of a parameter set.
pub ghost struct ParamsView {
    /// The device the parameters are for.
    pub pv_name: Seq<char>,
    /// The property last fetched, if any.
    pub property_value: Option<Property>,
}

/// A parameter set for creating one physical volume.
#[derive(Debug)]
pub struct PhysicalVolumeCreateParameters {
    pv_name: String,
    property_value: Option<Property>,
}

impl View for PhysicalVolumeCreateParameters {
    type V = ParamsView;

    closed spec fn view(&self) -> ParamsView {
        ParamsView { pv_name: self.pv_name@, property_value: self.property_value }
    }
}

impl PhysicalVolumeCreateParameters {
    /// A fresh parameter set for the named device, with nothing staged.
    pub(crate) fn new_params(pv_name: String) -> (r: PhysicalVolumeCreateParameters)
        ensures
            r@ == (ParamsView { pv_name: pv_name@, property_value: None }),
    {
        PhysicalVolumeCreateParameters { pv_name, property_value: None }
    }

    /// Fetch a property into the staged slot.
    pub fn get_property(&mut self, name: &Property) -> (r: LvmResult<()>)
        ensures
            r is Ok,
            final(self)@ == (ParamsView { property_value: Some(*name), ..old(self)@ }),
    {
        self.property_value = Some(*name);
        Ok(())
    }

    /// Store the staged property back into the parameter set; `status` is
    /// the engine's verdict.  Fetching a property first is a caller
    /// obligation.
    pub fn set_property(&mut self, lvm: &Lvm, name: &Property, status: i32) -> (r: LvmResult<()>)
        requires
            old(self)@.property_value is Some,
        ensures
            final(self)@ == old(self)@,
            r is Ok <==> status >= 0,
            r is Err ==> r->Err_0@ == engine_error_view(lvm@),
    {
        let _ = name;
        if status < 0 {
            return Err(lvm.engine_error());
        }
        Ok(())
    }
}

} // verus!
