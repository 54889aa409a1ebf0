//! Names of cells, ports, trees and the rest: a string and a UUID.
use vstd::prelude::*;

use crate::config::{CellNo, PortNo, SEPARATOR};
use crate::text::{concat3, contains_blank, decimal, decimal_string, lemma_concat_contains};
use crate::utility::{PortNumber, S};
use crate::uuid_ec::{with_code, Uuid, AIT, NORMAL};

verus! {

#[derive(Debug, Clone)]
pub enum NameError {
    Format { func_name: &'static str, name: String },
}

/// Behaviour shared by all names.
pub trait Name: Sized {
    spec fn spec_name(&self) -> Seq<char>;

    spec fn spec_uuid(&self) -> Uuid;

    fn get_name(&self) -> (s: &str)
        ensures
            s@ == self.spec_name(),
    ;

    fn get_uuid(&self) -> (u: Uuid)
        ensures
            u == self.spec_uuid(),
    ;

    /// A name of the same kind with the given string and a fresh normal UUID.
    fn create_from_string(&self, n: &str) -> (r: Self)
        ensures
            r.spec_name() == n@,
            r.spec_uuid().spec_code() == NORMAL,
            r.spec_uuid().spec_port_byte() == 0,
    ;

    fn stringify(&self) -> (s: String)
        ensures
            s@ == self.spec_name(),
    {
        S(self.get_name())
    }

    /// Names may not contain blanks.
    fn name_from_str(&self, s: &str) -> (r: Result<Self, NameError>)
        ensures
            (s@.contains(' ') ==> (r matches Err(NameError::Format { func_name, name })
                && func_name == "from_str" && name@ == s@)),
            (!s@.contains(' ') ==> (r matches Ok(n) && n.spec_name() == s@
                && n.spec_uuid().spec_code() == NORMAL && n.spec_uuid().spec_port_byte() == 0)),
    {
        if contains_blank(s) {
            Err(NameError::Format { name: S(s), func_name: "from_str" })
        } else {
            Ok(self.create_from_string(s))
        }
    }

    /// This name followed by the separator and `s`, as a new name of the same kind.
    fn add_component(&self, s: &str) -> (r: Result<Self, NameError>)
        ensures
            s@.contains(' ') ==> (r matches Err(NameError::Format { func_name, name })
                && func_name == "add_component" && name@ == s@),
            !s@.contains(' ') ==> (((self.spec_name() + seq!['+'] + s@).contains(' ') ==> (r matches Err(NameError::Format { func_name, name })
                    && func_name == "from_str" && name@ == (self.spec_name() + seq!['+'] + s@))) &&
                (!(self.spec_name() + seq!['+'] + s@).contains(' ') ==> (r matches Ok(n) && n.spec_name() == (self.spec_name() + seq!['+'] + s@)
                    && n.spec_uuid().spec_code() == NORMAL && n.spec_uuid().spec_port_byte() == 0))),
    {
        if contains_blank(s) {
            Err(NameError::Format { name: S(s), func_name: "add_component" })
        } else {
            let joined = concat3(self.get_name(), "+", s);
            proof {
                reveal_strlit("+");
                assert(joined@ =~= self.spec_name() + seq!['+'] + s@);
            }
            self.name_from_str(joined.as_str())
        }
    }

    fn is_name(&self, name: &str) -> (b: bool)
        ensures
            b == (self.spec_name() == name@),
    {
        let mine = S(self.get_name());
        let theirs = S(name);
        mine == theirs
    }
}

#[derive(Debug)]
pub struct CellID {
    name: String,
    uuid: Uuid,
}

impl Clone for CellID {
    fn clone(&self) -> (r: Self)
        ensures
            r == *self,
            r.spec_name() == self.spec_name(),
            r.spec_uuid() == self.spec_uuid(),
    {
        CellID { name: self.name.clone(), uuid: self.uuid }
    }
}

impl Name for CellID {
    closed spec fn spec_name(&self) -> Seq<char> {
        self.name@
    }

    closed spec fn spec_uuid(&self) -> Uuid {
        self.uuid
    }

    fn get_name(&self) -> (s: &str) {
        self.name.as_str()
    }

    fn get_uuid(&self) -> (u: Uuid) {
        self.uuid
    }

    fn create_from_string(&self, n: &str) -> (r: Self) {
        CellID { name: S(n), uuid: Uuid::new() }
    }
}

impl CellID {
    /// Names are equal when their strings and UUIDs are.
    pub fn equals(&self, other: &CellID) -> (b: bool)
        ensures
            b == (self.spec_name() == other.spec_name() && self.spec_uuid() == other.spec_uuid()),
    {
        self.name == other.name && self.uuid == other.uuid
    }

    /// The cell's name is `C:` and its number.
    pub fn new(cell_no: CellNo) -> (r: Result<CellID, NameError>)
        ensures
            r matches Ok(id) && id.spec_name() == seq!['C', ':'] + decimal(cell_no.0 as nat)
                && id.spec_uuid().spec_code() == NORMAL && id.spec_uuid().spec_port_byte() == 0,
    {
        let digits = decimal_string(cell_no.0 as u64);
        let name = concat3("C", ":", digits.as_str());
        proof {
            reveal_strlit("C");
            reveal_strlit(":");
            assert(seq!['C'] + seq![':'] + decimal(cell_no.0 as nat) =~= seq!['C', ':'] + decimal(cell_no.0 as nat));
        }
        Ok(CellID { name, uuid: Uuid::new() })
    }
}

#[derive(Debug)]
pub struct PortID {
    name: String,
    uuid: Uuid,
}

impl Clone for PortID {
    fn clone(&self) -> (r: Self)
        ensures
            r == *self,
            r.spec_name() == self.spec_name(),
            r.spec_uuid() == self.spec_uuid(),
    {
        PortID { name: self.name.clone(), uuid: self.uuid }
    }
}

impl Name for PortID {
    closed spec fn spec_name(&self) -> Seq<char> {
        self.name@
    }

    closed spec fn spec_uuid(&self) -> Uuid {
        self.uuid
    }

    fn get_name(&self) -> (s: &str) {
        self.name.as_str()
    }

    fn get_uuid(&self) -> (u: Uuid) {
        self.uuid
    }

    fn create_from_string(&self, n: &str) -> (r: Self) {
        PortID { name: S(n), uuid: Uuid::new() }
    }
}

impl PortID {
    /// Names are equal when their strings and UUIDs are.
    pub fn equals(&self, other: &PortID) -> (b: bool)
        ensures
            b == (self.spec_name() == other.spec_name() && self.spec_uuid() == other.spec_uuid()),
    {
        self.name == other.name && self.uuid == other.uuid
    }

    /// The port's name is its cell's name, the separator, `P:` and the port number.
    pub fn new(cell_id: &CellID, port_number: PortNumber) -> (r: Result<PortID, NameError>)
        ensures
            r matches Ok(id) && id.spec_name() == cell_id.spec_name() + seq!['+', 'P', ':']
                + decimal(port_number.port_no.0 as nat)
                && id.spec_uuid().spec_code() == NORMAL && id.spec_uuid().spec_port_byte() == 0,
    {
        let digits = decimal_string(port_number.get_port_no().0 as u64);
        let port = concat3("P", ":", digits.as_str());
        let name = concat3(cell_id.get_name(), SEPARATOR, port.as_str());
        proof {
            reveal_strlit("P");
            reveal_strlit(":");
            reveal_strlit("+");
            assert(cell_id.spec_name() + seq!['+'] + (seq!['P'] + seq![':'] + decimal(port_number.port_no.0 as nat))
                =~= cell_id.spec_name() + seq!['+', 'P', ':'] + decimal(port_number.port_no.0 as nat));
        }
        Ok(PortID { name, uuid: Uuid::new() })
    }
}

#[derive(Debug)]
pub struct TreeID {
    name: String,
    uuid: Uuid,
}

impl Clone for TreeID {
    fn clone(&self) -> (r: Self)
        ensures
            r == *self,
            r.spec_name() == self.spec_name(),
            r.spec_uuid() == self.spec_uuid(),
    {
        TreeID { name: self.name.clone(), uuid: self.uuid }
    }
}

impl Name for TreeID {
    closed spec fn spec_name(&self) -> Seq<char> {
        self.name@
    }

    closed spec fn spec_uuid(&self) -> Uuid {
        self.uuid
    }

    fn get_name(&self) -> (s: &str) {
        self.name.as_str()
    }

    fn get_uuid(&self) -> (u: Uuid) {
        self.uuid
    }

    fn create_from_string(&self, n: &str) -> (r: Self) {
        TreeID { name: S(n), uuid: Uuid::new() }
    }
}

impl TreeID {
    /// Names are equal when their strings and UUIDs are.
    pub fn equals(&self, other: &TreeID) -> (b: bool)
        ensures
            b == (self.spec_name() == other.spec_name() && self.spec_uuid() == other.spec_uuid()),
    {
        self.name == other.name && self.uuid == other.uuid
    }

    /// Fails when the name holds a blank.
    pub fn new(n: &str) -> (r: Result<TreeID, NameError>)
        ensures
            n@.contains(' ') ==> (r matches Err(NameError::Format { func_name, name })
                && func_name == "TreeID::new" && name@ == n@),
            !n@.contains(' ') ==> (r matches Ok(id) && id.spec_name() == n@
                && id.spec_uuid().spec_code() == NORMAL && id.spec_uuid().spec_port_byte() == 0),
    {
        if contains_blank(n) {
            Err(NameError::Format { name: S(n), func_name: "TreeID::new" })
        } else {
            Ok(TreeID { name: S(n), uuid: Uuid::new() })
        }
    }

    /// A tree named `Default`.
    pub fn default() -> (t: TreeID)
        ensures
            t.spec_name() == seq!['D', 'e', 'f', 'a', 'u', 'l', 't'],
            t.spec_uuid().spec_code() == NORMAL,
            t.spec_uuid().spec_port_byte() == 0,
    {
        proof {
            reveal_strlit("Default");
        }
        TreeID { name: S("Default"), uuid: Uuid::new() }
    }

    /// The same tree with its root port number recorded in the UUID.
    pub fn with_root_port_number(&self, port_number: &PortNumber) -> (t: TreeID)
        ensures
            t.spec_name() == self.spec_name(),
            t.spec_uuid().spec_port_byte() == port_number.port_no.0,
            t.spec_uuid().spec_code() == self.spec_uuid().spec_code(),
            t.spec_uuid().spec_rest() == self.spec_uuid().spec_rest(),
    {
        let mut uuid = self.uuid;
        uuid.add_port_no(port_number);
        TreeID { name: S(self.get_name()), uuid }
    }

    /// The same tree with no root port number in the UUID.
    pub fn without_root_port_number(&self) -> (t: TreeID)
        ensures
            t.spec_name() == self.spec_name(),
            t.spec_uuid().spec_port_byte() == 0,
            t.spec_uuid() == Uuid::spec_from_parts(self.spec_uuid().spec_code(), 0, self.spec_uuid().spec_rest()),
            t.spec_uuid().spec_code() == self.spec_uuid().spec_code(),
            t.spec_uuid().spec_rest() == self.spec_uuid().spec_rest(),
    {
        let mut uuid = self.uuid;
        uuid.remove_port_no();
        TreeID { name: S(self.get_name()), uuid }
    }

    /// The same tree with the AIT code in its UUID, the direction kept.
    pub fn with_ait_uuid(&self) -> (t: TreeID)
        ensures
            t.spec_name() == self.spec_name(),
            t.spec_uuid().spec_code() == with_code(self.spec_uuid().spec_code(), AIT),
            t.spec_uuid().spec_port_byte() == self.spec_uuid().spec_port_byte(),
            t.spec_uuid().spec_rest() == self.spec_uuid().spec_rest(),
    {
        let mut uuid = self.uuid;
        uuid.make_ait();
        TreeID { name: S(self.get_name()), uuid }
    }

    pub fn _get_port_no(&self) -> (p: PortNo)
        ensures
            p == PortNo(self.spec_uuid().spec_port_byte()),
    {
        PortNo(self.uuid.get_port_byte())
    }

    /// Takes over the other tree's root port number.
    pub fn _transfer_port_number(&mut self, other: &TreeID)
        ensures
            final(self).spec_name() == old(self).spec_name(),
            final(self).spec_uuid().spec_port_byte() == other.spec_uuid().spec_port_byte(),
            final(self).spec_uuid().spec_code() == old(self).spec_uuid().spec_code(),
            final(self).spec_uuid().spec_rest() == old(self).spec_uuid().spec_rest(),
    {
        let port_number = PortNumber { port_no: other._get_port_no() };
        self.uuid.add_port_no(&port_number);
    }
}

#[derive(Debug)]
pub struct UptreeID {
    name: String,
    uuid: Uuid,
}

impl Clone for UptreeID {
    fn clone(&self) -> (r: Self)
        ensures
            r == *self,
            r.spec_name() == self.spec_name(),
            r.spec_uuid() == self.spec_uuid(),
    {
        UptreeID { name: self.name.clone(), uuid: self.uuid }
    }
}

impl Name for UptreeID {
    closed spec fn spec_name(&self) -> Seq<char> {
        self.name@
    }

    closed spec fn spec_uuid(&self) -> Uuid {
        self.uuid
    }

    fn get_name(&self) -> (s: &str) {
        self.name.as_str()
    }

    fn get_uuid(&self) -> (u: Uuid) {
        self.uuid
    }

    fn create_from_string(&self, n: &str) -> (r: Self) {
        UptreeID { name: S(n), uuid: Uuid::new() }
    }
}

impl UptreeID {
    /// Names are equal when their strings and UUIDs are.
    pub fn equals(&self, other: &UptreeID) -> (b: bool)
        ensures
            b == (self.spec_name() == other.spec_name() && self.spec_uuid() == other.spec_uuid()),
    {
        self.name == other.name && self.uuid == other.uuid
    }

    /// Fails when the name holds a blank.
    pub fn new(n: &str) -> (r: Result<UptreeID, NameError>)
        ensures
            n@.contains(' ') ==> (r matches Err(NameError::Format { func_name, name })
                && func_name == "UptreeID::new" && name@ == n@),
            !n@.contains(' ') ==> (r matches Ok(id) && id.spec_name() == n@
                && id.spec_uuid().spec_code() == NORMAL && id.spec_uuid().spec_port_byte() == 0),
    {
        if contains_blank(n) {
            Err(NameError::Format { name: S(n), func_name: "UptreeID::new" })
        } else {
            Ok(UptreeID { name: S(n), uuid: Uuid::new() })
        }
    }
}

#[derive(Debug)]
pub struct TenantID {
    name: String,
    uuid: Uuid,
}

impl Clone for TenantID {
    fn clone(&self) -> (r: Self)
        ensures
            r == *self,
            r.spec_name() == self.spec_name(),
            r.spec_uuid() == self.spec_uuid(),
    {
        TenantID { name: self.name.clone(), uuid: self.uuid }
    }
}

impl Name for TenantID {
    closed spec fn spec_name(&self) -> Seq<char> {
        self.name@
    }

    closed spec fn spec_uuid(&self) -> Uuid {
        self.uuid
    }

    fn get_name(&self) -> (s: &str) {
        self.name.as_str()
    }

    fn get_uuid(&self) -> (u: Uuid) {
        self.uuid
    }

    fn create_from_string(&self, n: &str) -> (r: Self) {
        TenantID { name: S(n), uuid: Uuid::new() }
    }
}

impl TenantID {
    /// Names are equal when their strings and UUIDs are.
    pub fn equals(&self, other: &TenantID) -> (b: bool)
        ensures
            b == (self.spec_name() == other.spec_name() && self.spec_uuid() == other.spec_uuid()),
    {
        self.name == other.name && self.uuid == other.uuid
    }
}

#[derive(Debug)]
pub struct LinkID {
    name: String,
    uuid: Uuid,
}

impl Clone for LinkID {
    fn clone(&self) -> (r: Self)
        ensures
            r == *self,
            r.spec_name() == self.spec_name(),
            r.spec_uuid() == self.spec_uuid(),
    {
        LinkID { name: self.name.clone(), uuid: self.uuid }
    }
}

impl Name for LinkID {
    closed spec fn spec_name(&self) -> Seq<char> {
        self.name@
    }

    closed spec fn spec_uuid(&self) -> Uuid {
        self.uuid
    }

    fn get_name(&self) -> (s: &str) {
        self.name.as_str()
    }

    fn get_uuid(&self) -> (u: Uuid) {
        self.uuid
    }

    fn create_from_string(&self, n: &str) -> (r: Self) {
        LinkID { name: S(n), uuid: Uuid::new() }
    }
}

impl LinkID {
    /// Names are equal when their strings and UUIDs are.
    pub fn equals(&self, other: &LinkID) -> (b: bool)
        ensures
            b == (self.spec_name() == other.spec_name() && self.spec_uuid() == other.spec_uuid()),
    {
        self.name == other.name && self.uuid == other.uuid
    }

    /// The link's name joins its two ports' names with the separator.
    pub fn new(left_id: &PortID, rite_id: &PortID) -> (r: Result<LinkID, NameError>)
        ensures
            r matches Ok(id) && id.spec_name() == left_id.spec_name() + seq!['+'] + rite_id.spec_name()
                && id.spec_uuid().spec_code() == NORMAL && id.spec_uuid().spec_port_byte() == 0,
    {
        let name = concat3(left_id.get_name(), SEPARATOR, rite_id.get_name());
        proof {
            reveal_strlit("+");
        }
        Ok(LinkID { name, uuid: Uuid::new() })
    }
}

#[derive(Debug)]
pub struct VmID {
    name: String,
    uuid: Uuid,
}

impl Clone for VmID {
    fn clone(&self) -> (r: Self)
        ensures
            r == *self,
            r.spec_name() == self.spec_name(),
            r.spec_uuid() == self.spec_uuid(),
    {
        VmID { name: self.name.clone(), uuid: self.uuid }
    }
}

impl Name for VmID {
    closed spec fn spec_name(&self) -> Seq<char> {
        self.name@
    }

    closed spec fn spec_uuid(&self) -> Uuid {
        self.uuid
    }

    fn get_name(&self) -> (s: &str) {
        self.name.as_str()
    }

    fn get_uuid(&self) -> (u: Uuid) {
        self.uuid
    }

    fn create_from_string(&self, n: &str) -> (r: Self) {
        VmID { name: S(n), uuid: Uuid::new() }
    }
}

impl VmID {
    /// Names are equal when their strings and UUIDs are.
    pub fn equals(&self, other: &VmID) -> (b: bool)
        ensures
            b == (self.spec_name() == other.spec_name() && self.spec_uuid() == other.spec_uuid()),
    {
        self.name == other.name && self.uuid == other.uuid
    }

    /// `VM:`, the cell's name, the separator and the given name.
    pub fn new(cell_id: &CellID, name: &str) -> (r: Result<VmID, NameError>)
        ensures
            r matches Ok(id) && id.spec_name() == seq!['V', 'M', ':'] + cell_id.spec_name() + seq!['+']
                + name@ && id.spec_uuid().spec_code() == NORMAL && id.spec_uuid().spec_port_byte() == 0,
    {
        let head = concat3("VM:", cell_id.get_name(), SEPARATOR);
        let full = concat3(head.as_str(), name, "");
        proof {
            reveal_strlit("VM:");
            reveal_strlit("+");
            reveal_strlit("");
            assert(full@ =~= seq!['V', 'M', ':'] + cell_id.spec_name() + seq!['+'] + name@);
        }
        Ok(VmID { name: full, uuid: Uuid::new() })
    }
}

#[derive(Debug)]
pub struct SenderID {
    name: String,
    uuid: Uuid,
}

impl Clone for SenderID {
    fn clone(&self) -> (r: Self)
        ensures
            r == *self,
            r.spec_name() == self.spec_name(),
            r.spec_uuid() == self.spec_uuid(),
    {
        SenderID { name: self.name.clone(), uuid: self.uuid }
    }
}

impl Name for SenderID {
    closed spec fn spec_name(&self) -> Seq<char> {
        self.name@
    }

    closed spec fn spec_uuid(&self) -> Uuid {
        self.uuid
    }

    fn get_name(&self) -> (s: &str) {
        self.name.as_str()
    }

    fn get_uuid(&self) -> (u: Uuid) {
        self.uuid
    }

    fn create_from_string(&self, n: &str) -> (r: Self) {
        SenderID { name: S(n), uuid: Uuid::new() }
    }
}

impl SenderID {
    /// Names are equal when their strings and UUIDs are.
    pub fn equals(&self, other: &SenderID) -> (b: bool)
        ensures
            b == (self.spec_name() == other.spec_name() && self.spec_uuid() == other.spec_uuid()),
    {
        self.name == other.name && self.uuid == other.uuid
    }

    /// `Sender:`, the cell's name, the separator and the given name.
    pub fn new(cell_id: &CellID, name: &str) -> (r: Result<SenderID, NameError>)
        ensures
            r matches Ok(id) && id.spec_name() == seq!['S', 'e', 'n', 'd', 'e', 'r', ':'] + cell_id.spec_name()
                + seq!['+'] + name@ && id.spec_uuid().spec_code() == NORMAL
                && id.spec_uuid().spec_port_byte() == 0,
    {
        let head = concat3("Sender:", cell_id.get_name(), SEPARATOR);
        let full = concat3(head.as_str(), name, "");
        proof {
            reveal_strlit("Sender:");
            reveal_strlit("+");
            reveal_strlit("");
            assert(full@ =~= seq!['S', 'e', 'n', 'd', 'e', 'r', ':'] + cell_id.spec_name() + seq!['+'] + name@);
        }
        Ok(SenderID { name: full, uuid: Uuid::new() })
    }
}

#[derive(Debug)]
pub struct ContainerID {
    name: String,
    uuid: Uuid,
}

impl Clone for ContainerID {
    fn clone(&self) -> (r: Self)
        ensures
            r == *self,
            r.spec_name() == self.spec_name(),
            r.spec_uuid() == self.spec_uuid(),
    {
        ContainerID { name: self.name.clone(), uuid: self.uuid }
    }
}

impl Name for ContainerID {
    closed spec fn spec_name(&self) -> Seq<char> {
        self.name@
    }

    closed spec fn spec_uuid(&self) -> Uuid {
        self.uuid
    }

    fn get_name(&self) -> (s: &str) {
        self.name.as_str()
    }

    fn get_uuid(&self) -> (u: Uuid) {
        self.uuid
    }

    fn create_from_string(&self, n: &str) -> (r: Self) {
        ContainerID { name: S(n), uuid: Uuid::new() }
    }
}

impl ContainerID {
    /// Names are equal when their strings and UUIDs are.
    pub fn equals(&self, other: &ContainerID) -> (b: bool)
        ensures
            b == (self.spec_name() == other.spec_name() && self.spec_uuid() == other.spec_uuid()),
    {
        self.name == other.name && self.uuid == other.uuid
    }

    /// Fails when the name holds a blank.
    pub fn new(n: &str) -> (r: Result<ContainerID, NameError>)
        ensures
            n@.contains(' ') ==> (r matches Err(NameError::Format { func_name, name })
                && func_name == "ContainerID::new" && name@ == n@),
            !n@.contains(' ') ==> (r matches Ok(id) && id.spec_name() == n@
                && id.spec_uuid().spec_code() == NORMAL && id.spec_uuid().spec_port_byte() == 0),
    {
        if contains_blank(n) {
            Err(NameError::Format { name: S(n), func_name: "ContainerID::new" })
        } else {
            Ok(ContainerID { name: S(n), uuid: Uuid::new() })
        }
    }
}

/// Adding a blank-free component to a blank-free name always succeeds, and
/// the new name ends with the component.
pub proof fn lemma_add_component_ok(name: Seq<char>, component: Seq<char>)
    requires
        !name.contains(' '),
        !component.contains(' '),
    ensures
        !(name + seq!['+'] + component).contains(' '),
{
    lemma_concat_contains(name, seq!['+'], ' ');
    lemma_concat_contains(name + seq!['+'], component, ' ');
    assert(!seq!['+'].contains(' ')) by {
        if seq!['+'].contains(' ') {
            let k = choose|k: int| 0 <= k < 1 && seq!['+'][k] == ' ';
        }
    }
}

} // verus!
