use vstd::prelude::*;

use crate::config::{MAX_PORTS, REPO, MaskValue, PortNo};

verus! {

/// Bit `i` of a mask value: port `i` is selected.
pub open spec fn port_bit(v: u16, i: u16) -> bool {
    (v >> i) & 1u16 == 1u16
}

/// The single-bit mask that a port number selects (ports wrap every 16).
pub open spec fn port_mask_value(port_no: u8) -> u16 {
    1u16 << ((port_no % 16) as u16)
}

/// A set of ports, one bit per port.
#[derive(Debug, Copy, Clone, PartialEq, Eq, Structural, Hash)]
pub struct Mask {
    mask: MaskValue,
}

impl View for Mask {
    type V = u16;

    closed spec fn view(&self) -> u16 {
        self.mask.0
    }
}

/// All ports.
pub fn base_tenant_mask() -> (m: Mask)
    ensures
        m@ == 255u16,
{
    Mask { mask: MaskValue(255) }
}

/// All ports except port 0.
pub fn default_user_mask() -> (m: Mask)
    ensures
        m@ == 254u16,
{
    Mask { mask: MaskValue(254) }
}

pub proof fn lemma_port_mask_bit(port_no: u8, i: u16)
    requires
        i < 16,
    ensures
        port_bit(port_mask_value(port_no), i) <==> i == (port_no % 16) as u16,
{
    let p = (port_no % 16) as u16;
    assert(p < 16);
    assert(port_mask_value(port_no) == 1u16 << p);
    assert(((1u16 << p) >> i) & 1u16 == 1u16 <==> i == p) by (bit_vector)
        requires
            i < 16,
            p < 16,
    ;
}

impl Mask {
    /// The mask that selects exactly one port.
    pub fn new(port_number: PortNumber) -> (m: Mask)
        ensures
            m@ == port_mask_value(port_number.port_no.0),
    {
        let p: u8 = port_number.port_no.0 % 16;
        let v: u16 = 1u16 << (p as u16);
        Mask { mask: MaskValue(v) }
    }

    pub fn port0() -> (m: Mask)
        ensures
            m@ == 1u16,
    {
        Mask { mask: MaskValue(1) }
    }

    pub fn empty() -> (m: Mask)
        ensures
            m@ == 0u16,
    {
        Mask { mask: MaskValue(0) }
    }

    /// Ports 1 through `no_ports - 1`.
    pub fn all_but_zero(no_ports: PortNo) -> (m: Mask)
        requires
            1 <= no_ports.0 < 16,
        ensures
            m@ == ((1u16 << (no_ports.0 as u16)) - 2) as u16,
    {
        let n: u16 = no_ports.0 as u16;
        assert(1u16 << n >= 2) by (bit_vector)
            requires
                1 <= n < 16,
        ;
        let v: u16 = (1u16 << n) - 2;
        Mask { mask: MaskValue(v) }
    }

    pub fn equal(&self, other: Mask) -> (b: bool)
        ensures
            b == (self@ == other@),
    {
        self.mask.0 == other.mask.0
    }

    pub fn or(&self, mask: Mask) -> (m: Mask)
        ensures
            m@ == self@ | mask@,
    {
        Mask { mask: MaskValue(self.mask.0 | mask.mask.0) }
    }

    pub fn and(&self, mask: Mask) -> (m: Mask)
        ensures
            m@ == self@ & mask@,
    {
        Mask { mask: MaskValue(self.mask.0 & mask.mask.0) }
    }

    pub fn not(&self) -> (m: Mask)
        ensures
            m@ == !self@,
    {
        Mask { mask: MaskValue(!self.mask.0) }
    }

    /// This mask without the given port.
    pub fn all_but_port(&self, port_number: PortNumber) -> (m: Mask)
        ensures
            m@ == self@ & !port_mask_value(port_number.port_no.0),
    {
        let port_mask = Mask::new(port_number);
        self.and(port_mask.not())
    }

    /// The mask that selects exactly the given ports.
    pub fn make(port_numbers: &Vec<PortNumber>) -> (m: Mask)
        ensures
            forall|i: u16|
                i < 16 ==> (port_bit(m@, i) <==> exists|k: int|
                    0 <= k < port_numbers@.len() && (#[trigger] port_numbers@[k]).port_no.0 % 16
                        == i),
    {
        let mut mask = Mask::empty();
        let mut j: usize = 0;
        assert forall|i: u16| i < 16 implies !port_bit(0u16, i) by {
            assert(!port_bit(0u16, i)) by (bit_vector);
        }
        while j < port_numbers.len()
            invariant
                j <= port_numbers@.len(),
                forall|i: u16|
                    i < 16 ==> (port_bit(mask@, i) <==> exists|k: int|
                        0 <= k < j && (#[trigger] port_numbers@[k]).port_no.0 % 16 == i),
            decreases port_numbers@.len() - j,
        {
            let old_mask = mask;
            let pn = port_numbers[j];
            mask = old_mask.or(Mask::new(pn));
            assert forall|i: u16| i < 16 implies (port_bit(mask@, i) <==> exists|k: int|
                0 <= k < j + 1 && (#[trigger] port_numbers@[k]).port_no.0 % 16 == i) by {
                let a = old_mask@;
                let b = port_mask_value(pn.port_no.0);
                assert(port_bit(a | b, i) <==> port_bit(a, i) || port_bit(b, i)) by (bit_vector);
                lemma_port_mask_bit(pn.port_no.0, i);
                if port_bit(mask@, i) && !port_bit(a, i) {
                    assert(port_numbers@[j as int] == pn);
                }
                if exists|k: int| 0 <= k < j + 1 && (#[trigger] port_numbers@[k]).port_no.0 % 16 == i {
                    let k = choose|k: int| 0 <= k < j + 1 && (#[trigger] port_numbers@[k]).port_no.0 % 16 == i;
                    if k == j {
                        assert(port_numbers@[k] == pn);
                    }
                }
            }
            j = j + 1;
        }
        mask
    }

    /// The numbers of the ports below `MAX_PORTS` that this mask selects, in increasing order.
    pub fn get_port_nos(&self) -> (v: Vec<PortNo>)
        ensures
            v@ == ports_selected(self@, MAX_PORTS as nat),
    {
        let mut v: Vec<PortNo> = Vec::new();
        let mut i: u8 = 0;
        while i < MAX_PORTS
            invariant
                i <= MAX_PORTS,
                v@ == ports_selected(self@, i as nat),
            decreases MAX_PORTS - i,
        {
            let test_mask = Mask::new(PortNumber { port_no: PortNo(i) });
            let bits: u16 = test_mask.mask.0 & self.mask.0;
            proof {
                let m = self@;
                let ii = i as u16;
                assert(i % 16 == i);
                assert(test_mask@ == 1u16 << ii);
                assert(((1u16 << ii) & m != 0) <==> port_bit(m, ii)) by (bit_vector)
                    requires
                        ii < 16,
                ;
            }
            if bits != 0 {
                v.push(PortNo(i));
            }
            i = i + 1;
        }
        v
    }
}

/// The ports below `n` whose bits are set in `m`, in increasing order.
pub open spec fn ports_selected(m: u16, n: nat) -> Seq<PortNo>
    decreases n,
{
    if n == 0 {
        Seq::empty()
    } else {
        let prev = ports_selected(m, (n - 1) as nat);
        if port_bit(m, (n - 1) as u16) {
            prev.push(PortNo((n - 1) as u8))
        } else {
            prev
        }
    }
}

/// Port selection by the union, intersection and complement of masks.
pub proof fn lemma_mask_set_algebra(a: u16, b: u16, i: u16)
    requires
        i < 16,
    ensures
        port_bit(a | b, i) <==> port_bit(a, i) || port_bit(b, i),
        port_bit(a & b, i) <==> port_bit(a, i) && port_bit(b, i),
        port_bit(!a, i) <==> !port_bit(a, i),
{
    assert(port_bit(a | b, i) <==> port_bit(a, i) || port_bit(b, i)) by (bit_vector)
        requires
            i < 16,
    ;
    assert(port_bit(a & b, i) <==> port_bit(a, i) && port_bit(b, i)) by (bit_vector)
        requires
            i < 16,
    ;
    assert(port_bit(!a, i) <==> !port_bit(a, i)) by (bit_vector)
        requires
            i < 16,
    ;
}

/// Removing a port from a mask keeps every other port and drops that one.
pub proof fn lemma_all_but_port(m: u16, port_no: u8, i: u16)
    requires
        i < 16,
    ensures
        port_bit(m & !port_mask_value(port_no), i) <==> (port_bit(m, i) && i != (port_no % 16) as u16),
{
    lemma_mask_set_algebra(m, port_mask_value(port_no), i);
    lemma_mask_set_algebra(port_mask_value(port_no), m, i);
    let b = port_mask_value(port_no);
    assert(port_bit(m & !b, i) <==> port_bit(m, i) && !port_bit(b, i)) by (bit_vector)
        requires
            i < 16,
    ;
    lemma_port_mask_bit(port_no, i);
}

/// A port number known to be within a cell's port range.
#[derive(Debug, Copy, Clone, PartialEq, Eq, Structural, Hash)]
pub struct PortNumber {
    pub port_no: PortNo,
}

impl PortNumber {
    /// Fails when `no` exceeds `no_ports`.
    pub fn new(no: PortNo, no_ports: PortNo) -> (r: Result<PortNumber, UtilityError>)
        ensures
            no.0 > no_ports.0 ==> r == Err::<PortNumber, UtilityError>(
                UtilityError::PortNumber { port_no: no, func_name: "PortNumber::new", max: no_ports },
            ),
            no.0 <= no_ports.0 ==> r == Ok::<PortNumber, UtilityError>(PortNumber { port_no: no }),
    {
        if no.0 > no_ports.0 {
            Err(UtilityError::PortNumber { port_no: no, func_name: "PortNumber::new", max: no_ports })
        } else {
            Ok(PortNumber { port_no: no })
        }
    }

    pub fn new0() -> (p: PortNumber)
        ensures
            p.port_no == PortNo(0),
    {
        PortNumber { port_no: PortNo(0) }
    }

    pub fn get_port_no(&self) -> (p: PortNo)
        ensures
            p == self.port_no,
    {
        self.port_no
    }
}

impl PortNo {
    /// The port number, checked against the number of ports.
    pub fn make_port_number(self, no_ports: PortNo) -> (r: Result<PortNumber, UtilityError>)
        ensures
            self.0 > no_ports.0 ==> r == Err::<PortNumber, UtilityError>(
                UtilityError::PortNumber { port_no: self, func_name: "PortNumber::new", max: no_ports },
            ),
            self.0 <= no_ports.0 ==> r == Ok::<PortNumber, UtilityError>(PortNumber { port_no: self }),
    {
        PortNumber::new(self, no_ports)
    }
}

/// The port on which a tree's root is reached.
#[derive(Debug, Copy, Clone, PartialEq, Eq, Structural, Hash)]
pub struct Path {
    port_number: PortNumber,
}

impl Path {
    pub closed spec fn spec_port_number(self) -> PortNumber {
        self.port_number
    }

    pub fn new(port_no: PortNo, no_ports: PortNo) -> (r: Result<Path, UtilityError>)
        ensures
            port_no.0 > no_ports.0 ==> r == Err::<Path, UtilityError>(
                UtilityError::Chain { func_name: "Path::new", comment: "" },
            ),
            port_no.0 <= no_ports.0 ==> (r matches Ok(p) && p.spec_port_number().port_no == port_no),
    {
        match port_no.make_port_number(no_ports) {
            Ok(port_number) => Ok(Path { port_number }),
            Err(_) => Err(UtilityError::Chain { func_name: "Path::new", comment: "" }),
        }
    }

    /// The path through port 0.
    pub closed spec fn spec_new0() -> Path {
        Path { port_number: PortNumber { port_no: PortNo(0) } }
    }

    pub fn new0() -> (p: Path)
        ensures
            p == Path::spec_new0(),
            p.spec_port_number().port_no == PortNo(0),
    {
        Path { port_number: PortNumber::new0() }
    }

    pub fn get_port_number(&self) -> (p: PortNumber)
        ensures
            p == self.spec_port_number(),
    {
        self.port_number
    }

    pub fn get_port_no(&self) -> (p: PortNo)
        ensures
            p == self.spec_port_number().port_no,
    {
        self.port_number.port_no
    }
}

#[derive(Debug, Copy, Clone, PartialEq, Eq, Structural, Hash)]
pub enum TraceType {
    Trace,
    Debug,
}

/// Where in the code a trace record was written.
#[derive(Debug, Copy, Clone)]
pub struct TraceHeaderParams {
    pub module: &'static str,
    pub function: &'static str,
    pub line_no: u32,
    pub format: &'static str,
}

impl TraceHeaderParams {
    pub fn get_module(&self) -> (s: &'static str)
        ensures
            s == self.module,
    {
        self.module
    }

    pub fn get_function(&self) -> (s: &'static str)
        ensures
            s == self.function,
    {
        self.function
    }

    pub fn get_line_no(&self) -> (n: u32)
        ensures
            n == self.line_no,
    {
        self.line_no
    }

    pub fn get_format(&self) -> (s: &'static str)
        ensures
            s == self.format,
    {
        self.format
    }
}

/// The header of a trace record: a hierarchical event id that advances with
/// each record and branches when work is handed to another thread.
#[derive(Debug, Clone)]
pub struct TraceHeader {
    epoch: u64,
    thread_id: u64,
    event_id: Vec<u64>,
    trace_type: TraceType,
    module: &'static str,
    line_no: u32,
    function: &'static str,
    format: &'static str,
    repo: &'static str,
}

impl TraceHeader {
    pub closed spec fn spec_event_id(&self) -> Seq<u64> {
        self.event_id@
    }

    pub closed spec fn spec_epoch(&self) -> u64 {
        self.epoch
    }

    pub closed spec fn spec_thread_id(&self) -> u64 {
        self.thread_id
    }

    pub closed spec fn spec_trace_type(&self) -> TraceType {
        self.trace_type
    }

    pub closed spec fn spec_location(&self) -> (&'static str, u32, &'static str, &'static str) {
        (self.module, self.line_no, self.function, self.format)
    }

    pub closed spec fn spec_repo(&self) -> &'static str {
        self.repo
    }

    /// Event ids are never empty.
    pub open spec fn wf(&self) -> bool {
        self.spec_event_id().len() > 0
    }

    /// A fresh header for the given thread, taken at time `epoch`.
    pub fn new(thread_id: u64, epoch: u64) -> (t: TraceHeader)
        ensures
            t.wf(),
            t.spec_event_id() == seq![0u64],
            t.spec_thread_id() == thread_id,
            t.spec_epoch() == epoch,
            t.spec_trace_type() == TraceType::Trace,
            t.spec_location() == ("", 0u32, "", ""),
            t.spec_repo() == REPO,
    {
        TraceHeader {
            epoch,
            thread_id,
            event_id: vec![0],
            trace_type: TraceType::Trace,
            module: "",
            line_no: 0,
            function: "",
            format: "",
            repo: REPO,
        }
    }

    /// Advances to the next event of this thread.
    pub fn next(&mut self, trace_type: TraceType)
        requires
            old(self).wf(),
            old(self).spec_event_id().last() < u64::MAX,
        ensures
            final(self).wf(),
            final(self).spec_event_id() == old(self).spec_event_id().update(
                old(self).spec_event_id().len() - 1,
                (old(self).spec_event_id().last() + 1) as u64,
            ),
            final(self).spec_trace_type() == trace_type,
            final(self).spec_epoch() == old(self).spec_epoch(),
            final(self).spec_thread_id() == old(self).spec_thread_id(),
            final(self).spec_location() == old(self).spec_location(),
            final(self).spec_repo() == old(self).spec_repo(),
    {
        let last = self.event_id.len() - 1;
        self.trace_type = trace_type;
        let n = self.event_id[last] + 1;
        self.event_id.set(last, n);
    }

    /// Advances this header and returns the header of a child branch, which
    /// starts at event 0 below the advanced event id.
    pub fn fork_trace(&mut self, thread_id: u64, epoch: u64) -> (child: TraceHeader)
        requires
            old(self).wf(),
            old(self).spec_event_id().last() < u64::MAX,
        ensures
            final(self).wf(),
            child.wf(),
            final(self).spec_event_id() == old(self).spec_event_id().update(
                old(self).spec_event_id().len() - 1,
                (old(self).spec_event_id().last() + 1) as u64,
            ),
            child.spec_event_id() == final(self).spec_event_id().push(0u64),
            child.spec_thread_id() == thread_id,
            child.spec_epoch() == epoch,
            child.spec_trace_type() == old(self).spec_trace_type(),
            child.spec_location() == old(self).spec_location(),
            child.spec_repo() == REPO,
            final(self).spec_epoch() == old(self).spec_epoch(),
            final(self).spec_thread_id() == old(self).spec_thread_id(),
            final(self).spec_trace_type() == old(self).spec_trace_type(),
            final(self).spec_location() == old(self).spec_location(),
            final(self).spec_repo() == old(self).spec_repo(),
    {
        let last = self.event_id.len() - 1;
        let n = self.event_id[last] + 1;
        self.event_id.set(last, n);
        let mut event_id = self.event_id.clone();
        event_id.push(0);
        TraceHeader {
            epoch,
            thread_id,
            event_id,
            trace_type: self.trace_type,
            module: self.module,
            line_no: self.line_no,
            function: self.function,
            format: self.format,
            repo: REPO,
        }
    }

    /// Records where the next trace record comes from, at time `epoch`.
    pub fn update(&mut self, params: &TraceHeaderParams, epoch: u64)
        ensures
            final(self).spec_location() == (params.module, params.line_no, params.function, params.format),
            final(self).spec_epoch() == epoch,
            final(self).spec_event_id() == old(self).spec_event_id(),
            final(self).spec_thread_id() == old(self).spec_thread_id(),
            final(self).spec_trace_type() == old(self).spec_trace_type(),
            final(self).spec_repo() == old(self).spec_repo(),
    {
        self.module = params.get_module();
        self.line_no = params.get_line_no();
        self.function = params.get_function();
        self.format = params.get_format();
        self.epoch = epoch;
    }

    pub fn get_event_id(&self) -> (v: Vec<u64>)
        ensures
            v@ == self.spec_event_id(),
    {
        self.event_id.clone()
    }

    pub fn get_thread_id(&self) -> (n: u64)
        ensures
            n == self.spec_thread_id(),
    {
        self.thread_id
    }

    pub fn get_epoch(&self) -> (n: u64)
        ensures
            n == self.spec_epoch(),
    {
        self.epoch
    }

    pub fn get_trace_type(&self) -> (t: TraceType)
        ensures
            t == self.spec_trace_type(),
    {
        self.trace_type
    }

    /// Module, line, function and format of the record being written.
    pub fn get_location(&self) -> (l: (&'static str, u32, &'static str, &'static str))
        ensures
            l == self.spec_location(),
    {
        (self.module, self.line_no, self.function, self.format)
    }

    pub fn get_repo(&self) -> (r: &'static str)
        ensures
            r == self.spec_repo(),
    {
        self.repo
    }
}

/// Converts a string slice to an owned string.
#[allow(non_snake_case)]
pub fn S(s: &str) -> (r: String)
    ensures
        r@ == s@,
{
    s.to_owned()
}

#[derive(Debug, Clone)]
pub enum UtilityError {
    Chain { func_name: &'static str, comment: &'static str },
    PortNumber { port_no: PortNo, func_name: &'static str, max: PortNo },
    Serialize { func_name: &'static str },
    Unimplemented { feature: String, func_name: &'static str },
}

} // verus!
