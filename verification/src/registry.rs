// Registry for calibration segments, instances of parameters and measurement signals, type definitions and events

use vstd::prelude::*;

use crate::mc_calseg::McCalibrationSegmentList;
use crate::mc_event::McEventList;
use crate::mc_instance::McInstanceList;
use crate::mc_text::McIdentifier;
use crate::mc_type::McDimType;
use crate::mc_typedef::{
    InstanceView, McTypeDef, McTypeDefField, McTypeDefList, add_all_views, can_flatten, check_flatten, field_pos,
    first_typedef_pos, is_first_typedef, lemma_first_typedef_pos,
    flatten_instances, instance_views, instances_flatten, instances_leaves, no_typedef_views,
    views_unique,
};
use crate::strings::{str_to_string};

verus! {

//----------------------------------------------------------------------------------------------
// Error

/// Error type returned by functions of the registry API
#[derive(Debug)]
pub enum RegistryError {
    /// Duplicate symbol
    Duplicate(String),
    /// Symbol not found
    NotFound(String),
    /// Event id not defined
    UnknownEventChannel(u16),
    /// Unknown error
    Unknown,
}

//----------------------------------------------------------------------------------------------
// McXcpTransportLayer

/// XCP transport layer parameters, for the A2L XCP IF_DATA: protocol name, IPv4 address
/// octets and port
#[derive(Debug, Clone, Copy)]
pub struct McXcpTransportLayer {
    pub protocol_name: &'static str,
    pub addr: [u8; 4],
    pub port: u16,
}

impl Default for McXcpTransportLayer {
    fn default() -> (t: Self)
        ensures
            t.protocol_name@ == "UDP"@,
            t.addr@ == seq![127u8, 0, 0, 1],
            t.port == 5555,
    {
        let t = McXcpTransportLayer { protocol_name: "UDP", addr: [127, 0, 0, 1], port: 5555 };
        assert(t.addr@ =~= seq![127u8, 0, 0, 1]);
        t
    }
}

//----------------------------------------------------------------------------------------------
// Registry

/// The registry of an application
pub struct Registry {
    pub app_name: String,
    pub app_description: String,
    pub app_version: u16,
    pub epk: String,
    pub epk_addr: u32,
    pub prefix_names: bool,
    pub flatten_typedefs: bool,
    pub xcp_tl_params: Option<McXcpTransportLayer>,
    pub cal_seg_list: McCalibrationSegmentList,
    pub event_list: McEventList,
    pub instance_list: McInstanceList,
    pub typedef_list: McTypeDefList,
}

/// The instances of a flattened registry: each typedef instance replaced by the leaves of its typedef
pub open spec fn flattened(tds: Seq<McTypeDef>, insts: Seq<crate::mc_instance::McInstance>) -> Seq<InstanceView> {
    add_all_views(
        Seq::empty(),
        instances_leaves(tds, choose|rank: Seq<nat>| instances_flatten(tds, rank, insts), insts),
    )
}

/// `new` is `old` with its instances flattened and its typedefs cleared
pub open spec fn flattened_from(new: Registry, old: Registry) -> bool {
    &&& instance_views(new.instance_list@) == flattened(old.typedef_list@, old.instance_list@)
    &&& new.typedef_list@ == Seq::<McTypeDef>::empty()
    &&& new.app_name == old.app_name
    &&& new.app_description == old.app_description
    &&& new.app_version == old.app_version
    &&& new.epk == old.epk
    &&& new.epk_addr == old.epk_addr
    &&& new.prefix_names == old.prefix_names
    &&& new.flatten_typedefs == old.flatten_typedefs
    &&& new.xcp_tl_params == old.xcp_tl_params
    &&& new.cal_seg_list == old.cal_seg_list
    &&& new.event_list == old.event_list
}

impl Registry {
    pub open spec fn app_name(&self) -> Seq<char> {
        self.app_name@
    }

    /// An empty registry
    pub fn new() -> (r: Registry)
        ensures
            r.app_name@ == Seq::<char>::empty(),
            r.app_description@ == Seq::<char>::empty(),
            r.app_version == 0,
            r.epk@ == Seq::<char>::empty(),
            r.epk_addr == 0,
            !r.prefix_names,
            !r.flatten_typedefs,
            r.xcp_tl_params is None,
            r.cal_seg_list@.len() == 0,
            r.event_list@.len() == 0,
            r.instance_list@.len() == 0,
            r.typedef_list@.len() == 0,
    {
        Registry {
            app_name: String::new(),
            app_description: String::new(),
            app_version: 0,
            epk: String::new(),
            epk_addr: 0,
            prefix_names: false,
            flatten_typedefs: false,
            xcp_tl_params: None,
            cal_seg_list: McCalibrationSegmentList::new(),
            event_list: McEventList::new(),
            instance_list: McInstanceList::new(),
            typedef_list: McTypeDefList::new(),
        }
    }

    pub fn get_app_name(&self) -> (s: &str)
        ensures
            s@ == self.app_name(),
    {
        self.app_name.as_str()
    }

    /// Set application name, description and version
    pub fn set_app_info(&mut self, app_name: &str, app_description: &str, app_version: u16)
        ensures
            final(self).app_name@ == app_name@,
            final(self).app_description@ == app_description@,
            final(self).app_version == app_version,
            final(self).epk == old(self).epk,
            final(self).epk_addr == old(self).epk_addr,
            final(self).prefix_names == old(self).prefix_names,
            final(self).flatten_typedefs == old(self).flatten_typedefs,
            final(self).xcp_tl_params == old(self).xcp_tl_params,
            final(self).cal_seg_list == old(self).cal_seg_list,
            final(self).event_list == old(self).event_list,
            final(self).instance_list == old(self).instance_list,
            final(self).typedef_list == old(self).typedef_list,
    {
        self.app_name = str_to_string(app_name);
        self.app_description = str_to_string(app_description);
        self.app_version = app_version;
    }

    /// Set the EPK software version text and its address
    pub fn set_app_version(&mut self, epk: &str, epk_addr: u32)
        ensures
            final(self).epk@ == epk@,
            final(self).epk_addr == epk_addr,
            final(self).app_name == old(self).app_name,
            final(self).app_description == old(self).app_description,
            final(self).app_version == old(self).app_version,
            final(self).prefix_names == old(self).prefix_names,
            final(self).flatten_typedefs == old(self).flatten_typedefs,
            final(self).xcp_tl_params == old(self).xcp_tl_params,
            final(self).cal_seg_list == old(self).cal_seg_list,
            final(self).event_list == old(self).event_list,
            final(self).instance_list == old(self).instance_list,
            final(self).typedef_list == old(self).typedef_list,
    {
        self.epk = str_to_string(epk);
        self.epk_addr = epk_addr;
    }

    /// Set the XCP transport layer parameters for the A2L IF_DATA
    pub fn set_xcp_params(&mut self, protocol_name: &'static str, addr: [u8; 4], port: u16)
        ensures
            final(self).xcp_tl_params == Some(McXcpTransportLayer { protocol_name, addr, port }),
            final(self).app_name == old(self).app_name,
            final(self).app_description == old(self).app_description,
            final(self).app_version == old(self).app_version,
            final(self).epk == old(self).epk,
            final(self).epk_addr == old(self).epk_addr,
            final(self).prefix_names == old(self).prefix_names,
            final(self).flatten_typedefs == old(self).flatten_typedefs,
            final(self).cal_seg_list == old(self).cal_seg_list,
            final(self).event_list == old(self).event_list,
            final(self).instance_list == old(self).instance_list,
            final(self).typedef_list == old(self).typedef_list,
    {
        self.xcp_tl_params = Some(McXcpTransportLayer { protocol_name, addr, port });
    }

    /// The XCP transport layer parameters are set
    pub fn has_xcp_params(&self) -> (b: bool)
        ensures
            b == self.xcp_tl_params is Some,
    {
        self.xcp_tl_params.is_some()
    }

    /// Add an empty typedef
    /// Err(Duplicate) if a typedef with that name exists
    pub fn add_typedef(&mut self, typedef_name: McIdentifier, size: usize) -> (r: Result<(), RegistryError>)
        ensures
            r is Ok <==> forall|j: int|
                0 <= j < old(self).typedef_list@.len() ==> (#[trigger] old(self).typedef_list@[j]).name@
                    != typedef_name@,
            r is Ok ==> final(self).typedef_list@.len() == old(self).typedef_list@.len() + 1
                && final(self).typedef_list@.drop_last() == old(self).typedef_list@
                && final(self).typedef_list@.last().name == typedef_name
                && final(self).typedef_list@.last().size == size
                && final(self).typedef_list@.last().fields@.len() == 0,
            r is Err ==> final(self).typedef_list@ == old(self).typedef_list@,
            final(self).instance_list == old(self).instance_list,
            same_except_typedefs(*final(self), *old(self)),
    {
        if self.typedef_list.find_typedef_index(typedef_name.as_str()).is_some() {
            return Err(RegistryError::Duplicate(str_to_string(typedef_name.as_str())));
        }
        self.typedef_list.push(McTypeDef::new(typedef_name, size));
        assert(self.typedef_list@.drop_last() =~= old(self).typedef_list@);
        Ok(())
    }

    /// Add a field to the first typedef of the given name, with the metadata of its type
    /// Err(NotFound) if there is no such typedef, Err(Duplicate) if it has a field of that name
    pub fn add_typedef_component(
        &mut self,
        typedef_name: &str,
        field_name: McIdentifier,
        dim_type: McDimType,
        offset: u16,
    ) -> (r: Result<(), RegistryError>)
        ensures
            same_except_typedefs(*final(self), *old(self)),
            ({
                let tds = old(self).typedef_list@;
                let p = first_typedef_pos(tds, typedef_name@);
                &&& p < 0 ==> (r matches Err(RegistryError::NotFound(s)) && s@ == typedef_name@
                    && final(self).typedef_list@ == tds)
                &&& p >= 0 ==> (r is Ok <==> field_pos(tds[p].fields@, field_name@) == -1)
                &&& p >= 0 && r is Err ==> (r matches Err(RegistryError::Duplicate(s)) && s@
                    == field_name@ && final(self).typedef_list@ == tds)
                &&& p >= 0 && r is Ok ==> typedef_field_added(
                    tds,
                    final(self).typedef_list@,
                    p,
                    McTypeDefField { name: field_name, dim_type, mc_support_data: dim_type.mc_support_data, offset },
                )
            }),
    {
        let ghost tds = self.typedef_list@;
        match self.typedef_list.find_typedef_mut(typedef_name) {
            None => {
                proof {
                    assert(!exists|i: int| is_first_typedef(tds, i, typedef_name@));
                }
                Err(RegistryError::NotFound(str_to_string(typedef_name)))
            },
            Some(t) => {
                let ghost t0 = *t;
                let r = t.add_field(field_name, dim_type, dim_type.mc_support_data, offset);
                let ghost t1 = *t;
                proof {
                    let i = choose|i: int|
                        0 <= i < tds.len() && t0 == tds[i] && tds[i].name@ == typedef_name@ && (
                        forall|j: int| 0 <= j < i ==> (#[trigger] tds[j]).name@ != typedef_name@)
                            && self.typedef_list@ == tds.update(i, t1);
                    lemma_first_typedef_pos(tds, i, typedef_name@);
                }
                r
            },
        }
    }
}

/// Two registries are the same but for their typedefs
pub open spec fn same_except_typedefs(a: Registry, b: Registry) -> bool {
    &&& a.app_name == b.app_name
    &&& a.app_description == b.app_description
    &&& a.app_version == b.app_version
    &&& a.epk == b.epk
    &&& a.epk_addr == b.epk_addr
    &&& a.prefix_names == b.prefix_names
    &&& a.flatten_typedefs == b.flatten_typedefs
    &&& a.xcp_tl_params == b.xcp_tl_params
    &&& a.cal_seg_list == b.cal_seg_list
    &&& a.event_list == b.event_list
    &&& a.instance_list == b.instance_list
}

/// The typedef at position p got field f at its end; its name and size and all other typedefs stay
pub open spec fn typedef_field_added(before: Seq<McTypeDef>, after: Seq<McTypeDef>, p: int, f: McTypeDefField) -> bool {
    &&& after.len() == before.len()
    &&& forall|j: int| 0 <= j < before.len() && j != p ==> #[trigger] after[j] == before[j]
    &&& after[p].name == before[p].name
    &&& after[p].size == before[p].size
    &&& after[p].fields@ == before[p].fields@.push(f)
}

/// Flatten the typedef structure into instances with mangled names: each typedef instance is
/// replaced by its leaf fields "instance.field.subfield", at the instance address moved by the
/// field offsets; then the typedefs are cleared
/// Afterwards no instance is a typedef instance and no two instances share name and address
pub fn flatten_registry(reg: &mut Registry)
    requires
        can_flatten(old(reg).typedef_list@, old(reg).instance_list@),
    ensures
        flattened_from(*final(reg), *old(reg)),
        views_unique(instance_views(final(reg).instance_list@)),
        no_typedef_views(instance_views(final(reg).instance_list@)),
{
    let ghost rank = choose|rank: Seq<nat>|
        instances_flatten(old(reg).typedef_list@, rank, old(reg).instance_list@);
    let flat = flatten_instances(&reg.typedef_list, &reg.instance_list, Ghost(rank));
    reg.instance_list = flat;
    reg.typedef_list.clear();
}

/// Flatten the registry where it can be flattened; false and no change otherwise
pub fn try_flatten_registry(reg: &mut Registry) -> (r: bool)
    ensures
        r == can_flatten(old(reg).typedef_list@, old(reg).instance_list@),
        r ==> flattened_from(*final(reg), *old(reg)),
        !r ==> *final(reg) == *old(reg),
{
    if check_flatten(&reg.typedef_list, &reg.instance_list) {
        flatten_registry(reg);
        true
    } else {
        false
    }
}

//----------------------------------------------------------------------------------------------
// Registry singleton state

/// The registry of an application, open for modification until it is closed
/// The closed registry is read only; flattened on closing when its flag says so
pub struct RegistrySingleton {
    pub open: Option<Registry>,
    pub closed: Option<Registry>,
}

impl RegistrySingleton {
    /// Neither an open nor a closed registry
    pub fn new() -> (s: RegistrySingleton)
        ensures
            s.open is None,
            s.closed is None,
    {
        RegistrySingleton { open: None, closed: None }
    }

    /// Initialize the mutable registry, unless there is one
    pub fn init(&mut self)
        ensures
            old(self).open is None ==> (final(self).open matches Some(r) && r.instance_list@.len() == 0
                && r.typedef_list@.len() == 0 && r.event_list@.len() == 0 && r.cal_seg_list@.len() == 0
                && r.app_name@.len() == 0 && !r.flatten_typedefs && !r.prefix_names),
            old(self).open is Some ==> final(self).open == old(self).open,
            final(self).closed == old(self).closed,
    {
        if self.open.is_none() {
            self.open = Some(Registry::new());
        }
    }

    /// Get closed status
    pub fn is_closed(&self) -> (b: bool)
        ensures
            b == self.closed is Some,
    {
        self.closed.is_some()
    }

    /// Whether `close` can be called: the registry is closed already, or there is an open one,
    /// which can be flattened when its flag says so
    pub fn can_close(&self) -> (b: bool)
        ensures
            b == ((self.closed is None ==> self.open is Some) && (self.closed is None
                && self.open->0.flatten_typedefs ==> can_flatten(
                self.open->0.typedef_list@,
                self.open->0.instance_list@,
            ))),
    {
        if self.closed.is_some() {
            return true;
        }
        match &self.open {
            None => false,
            Some(reg) => !reg.flatten_typedefs || check_flatten(&reg.typedef_list, &reg.instance_list),
        }
    }

    /// Close the registry: no more changes allowed, the open registry moves to the read only one
    /// and is flattened when its flag says so; no change where it is closed already
    pub fn close(&mut self)
        requires
            old(self).closed is None ==> old(self).open is Some,
            old(self).closed is None && old(self).open->0.flatten_typedefs ==> can_flatten(
                old(self).open->0.typedef_list@,
                old(self).open->0.instance_list@,
            ),
        ensures
            old(self).closed is Some ==> *final(self) == *old(self),
            old(self).closed is None ==> final(self).open is None && final(self).closed is Some
                && (old(self).open->0.flatten_typedefs ==> flattened_from(
                final(self).closed->0,
                old(self).open->0,
            )) && (!old(self).open->0.flatten_typedefs ==> final(self).closed == old(self).open),
    {
        if self.closed.is_some() {
            return;
        }
        let mut reg = self.open.take().unwrap();
        if reg.flatten_typedefs {
            flatten_registry(&mut reg);
        }
        self.closed = Some(reg);
    }
}

} // verus!
