//! The node: its configuration, the sets of readers and writers it created,
//! the graph entry generated from them, the rosout log record, and the
//! predicates behind the wait-for-peer helpers.

use vstd::prelude::*;
use crate::entities::NodeEntitiesInfo;
use crate::graph::{DdsDiscoveryEvent, GraphState};
use crate::ids::{Gid, Guid, Time};
use crate::names::{spec_dds_name, spec_join, spec_render, spec_resolve, Name, NodeName, TopicPrefix};
use crate::type_names::{spec_action_category, spec_dds_type, spec_msg_category, spec_request_suffix, spec_response_suffix, spec_srv_category, ActionTypeName, MessageTypeName, ServiceTypeName, B_LOW_LINE};

verus! {

/// Configuration of a node, built in builder style.
#[derive(Clone, Copy, PartialEq, Eq, Structural, Debug)]
pub struct NodeOptions {
    pub use_global_arguments: bool,
    pub enable_rosout: bool,
    pub enable_rosout_reading: bool,
    pub start_parameter_services: bool,
    pub allow_undeclared_parameters: bool,
    pub automatically_declare_parameters_from_overrides: bool,
}

impl NodeOptions {
    /// The defaults: rosout written but not read, parameter services on.
    pub fn new() -> (r: NodeOptions)
        ensures
            r == (NodeOptions {
                use_global_arguments: true,
                enable_rosout: true,
                enable_rosout_reading: false,
                start_parameter_services: true,
                allow_undeclared_parameters: false,
                automatically_declare_parameters_from_overrides: false,
            }),
    {
        NodeOptions {
            use_global_arguments: true,
            enable_rosout: true,
            enable_rosout_reading: false,
            start_parameter_services: true,
            allow_undeclared_parameters: false,
            automatically_declare_parameters_from_overrides: false,
        }
    }

    pub fn enable_rosout(self, enable_rosout: bool) -> (r: NodeOptions)
        ensures
            r == (NodeOptions { enable_rosout, ..self }),
    {
        NodeOptions { enable_rosout, ..self }
    }

    pub fn read_rosout(self, enable_rosout_reading: bool) -> (r: NodeOptions)
        ensures
            r == (NodeOptions { enable_rosout_reading, ..self }),
    {
        NodeOptions { enable_rosout_reading, ..self }
    }
}

impl Default for NodeOptions {
    fn default() -> (r: NodeOptions)
        ensures
            r == (NodeOptions {
                use_global_arguments: true,
                enable_rosout: true,
                enable_rosout_reading: false,
                start_parameter_services: true,
                allow_undeclared_parameters: false,
                automatically_declare_parameters_from_overrides: false,
            }),
    {
        NodeOptions::new()
    }
}

/// Severity of one rosout record.
#[derive(Clone, Copy, PartialEq, Eq, Structural, Debug)]
pub enum LogLevel {
    Debug,
    Info,
    Warn,
    Error,
    Fatal,
}

impl LogLevel {
    /// The wire value of the level.
    pub open spec fn spec_value(self) -> u8 {
        match self {
            LogLevel::Debug => 10,
            LogLevel::Info => 20,
            LogLevel::Warn => 30,
            LogLevel::Error => 40,
            LogLevel::Fatal => 50,
        }
    }

    pub fn value(&self) -> (r: u8)
        ensures
            r == self.spec_value(),
    {
        match self {
            LogLevel::Debug => 10,
            LogLevel::Info => 20,
            LogLevel::Warn => 30,
            LogLevel::Error => 40,
            LogLevel::Fatal => 50,
        }
    }
}

/// One record of the rosout topic.
pub struct Log {
    pub timestamp: Time,
    pub level: u8,
    pub name: Vec<u8>,
    pub msg: Vec<u8>,
    pub file: Vec<u8>,
    pub function: Vec<u8>,
    pub line: u32,
}

/// Builds the rosout record a node publishes for one log call.
pub fn build_log_record(
    timestamp: Time,
    level: LogLevel,
    name: Vec<u8>,
    msg: Vec<u8>,
    file: Vec<u8>,
    function: Vec<u8>,
    line: u32,
) -> (r: Log)
    ensures
        r.timestamp == timestamp,
        r.level == level.spec_value(),
        r.name@ == name@,
        r.msg@ == msg@,
        r.file@ == file@,
        r.function@ == function@,
        r.line == line,
{
    let level_value = level.value();
    Log { timestamp, level: level_value, name, msg, file, function, line }
}


/// Well-formedness only reads the two entity sets.
proof fn lemma_wf_same_sets(a: NodeCore, b: NodeCore)
    requires
        a.wf(),
        a.readers@ == b.readers@,
        a.writers@ == b.writers@,
    ensures
        b.wf(),
{
    assert forall|g: Gid| !(b.spec_has_reader(g) && #[trigger] b.spec_has_writer(g)) by {
        if b.spec_has_reader(g) && b.spec_has_writer(g) {
            let k = choose|k: int| 0 <= k < b.readers@.len() && b.readers@[k] == g;
            assert(a.readers@[k] == g);
            assert(a.spec_has_reader(g));
            let m = choose|m: int| 0 <= m < b.writers@.len() && b.writers@[m] == g;
            assert(a.writers@[m] == g);
            assert(a.spec_has_writer(g));
        }
    }
}

/// The node's own bookkeeping: its name and options, the readers and
/// writers created through it, the two built-in writers, and whether its
/// spinner was already taken.
pub struct NodeCore {
    pub node_name: NodeName,
    pub options: NodeOptions,
    pub domain_id: u16,
    pub readers: Vec<Gid>,
    pub writers: Vec<Gid>,
    pub parameter_events_writer: Gid,
    pub rosout_writer: Option<Gid>,
    pub has_spinner: bool,
}

impl NodeCore {
    pub open spec fn spec_has_reader(&self, gid: Gid) -> bool {
        self.readers@.contains(gid)
    }

    pub open spec fn spec_has_writer(&self, gid: Gid) -> bool {
        self.writers@.contains(gid)
    }

    /// No entity is listed twice, and none is both a reader and a writer.
    pub open spec fn wf(&self) -> bool {
        &&& (forall|i: int, j: int|
            #![trigger self.readers@[i], self.readers@[j]]
            0 <= i < j < self.readers@.len() ==> self.readers@[i] != self.readers@[j])
        &&& (forall|i: int, j: int|
            #![trigger self.writers@[i], self.writers@[j]]
            0 <= i < j < self.writers@.len() ==> self.writers@[i] != self.writers@[j])
        &&& (forall|g: Gid| !(self.spec_has_reader(g) && #[trigger] self.spec_has_writer(g)))
    }

    /// A fresh node: no created entities yet, no spinner taken. The built-in
    /// writers come from the transport; the rosout writer only exists when
    /// the options enable rosout.
    pub fn new(
        node_name: NodeName,
        options: NodeOptions,
        domain_id: u16,
        parameter_events_writer: Gid,
        rosout_writer: Option<Gid>,
    ) -> (r: NodeCore)
        requires
            node_name.wf(),
            rosout_writer.is_some() == options.enable_rosout,
        ensures
            r.wf(),
            r.node_name == node_name,
            r.options == options,
            r.domain_id == domain_id,
            r.readers@.len() == 0,
            r.writers@.len() == 0,
            r.parameter_events_writer == parameter_events_writer,
            r.rosout_writer == rosout_writer,
            !r.has_spinner,
    {
        NodeCore {
            node_name,
            options,
            domain_id,
            readers: Vec::new(),
            writers: Vec::new(),
            parameter_events_writer,
            rosout_writer,
            has_spinner: false,
        }
    }

    pub fn base_name(&self) -> (r: &Vec<u8>)
        ensures
            r@ == self.node_name.base@,
    {
        &self.node_name.base
    }

    pub fn namespace(&self) -> (r: &Vec<u8>)
        ensures
            r@ == self.node_name.namespace@,
    {
        &self.node_name.namespace
    }

    pub fn fully_qualified_name(&self) -> (r: Vec<u8>)
        ensures
            r@ == spec_render(self.node_name.namespace@, self.node_name.base@),
    {
        self.node_name.fully_qualified_name()
    }

    pub fn options(&self) -> (r: &NodeOptions)
        ensures
            r == self.options,
    {
        &self.options
    }

    pub fn domain_id(&self) -> (r: u16)
        ensures
            r == self.domain_id,
    {
        self.domain_id
    }

    /// Records a subscription created through this node. The transport hands
    /// out fresh GUIDs, so the entity is new to the node.
    pub fn add_reader(&mut self, reader: Gid)
        requires
            old(self).wf(),
            !old(self).spec_has_reader(reader),
            !old(self).spec_has_writer(reader),
        ensures
            final(self).wf(),
            final(self).readers@ == old(self).readers@.push(reader),
            final(self).writers@ == old(self).writers@,
            final(self).node_name == old(self).node_name,
            final(self).options == old(self).options,
            final(self).domain_id == old(self).domain_id,
            final(self).parameter_events_writer == old(self).parameter_events_writer,
            final(self).rosout_writer == old(self).rosout_writer,
            final(self).has_spinner == old(self).has_spinner,
    {
        self.readers.push(reader);
        proof {
            let pre = old(self).readers@;
            let post = self.readers@;
            assert forall|i: int, j: int|
                #![trigger post[i], post[j]]
                0 <= i < j < post.len() implies post[i] != post[j] by {
                if j < pre.len() {
                    assert(post[i] == pre[i] && post[j] == pre[j]);
                } else {
                    assert(post[i] == pre[i]);
                    assert(pre.contains(pre[i]));
                }
            }
            assert forall|g: Gid|
                !(self.spec_has_reader(g) && #[trigger] self.spec_has_writer(g)) by {
                if self.spec_has_reader(g) {
                    let k = choose|k: int| 0 <= k < post.len() && post[k] == g;
                    if k < pre.len() {
                        assert(pre[k] == g);
                        assert(old(self).spec_has_reader(g));
                    } else {
                        assert(g == reader);
                    }
                    assert(!old(self).spec_has_writer(g));
                    if self.spec_has_writer(g) {
                        let m = choose|m: int|
                            0 <= m < self.writers@.len() && self.writers@[m] == g;
                        assert(old(self).writers@[m] == g);
                        assert(old(self).spec_has_writer(g));
                    }
                }
            }
        }
    }

    /// Records a publisher created through this node.
    pub fn add_writer(&mut self, writer: Gid)
        requires
            old(self).wf(),
            !old(self).spec_has_reader(writer),
            !old(self).spec_has_writer(writer),
        ensures
            final(self).wf(),
            final(self).writers@ == old(self).writers@.push(writer),
            final(self).readers@ == old(self).readers@,
            final(self).node_name == old(self).node_name,
            final(self).options == old(self).options,
            final(self).domain_id == old(self).domain_id,
            final(self).parameter_events_writer == old(self).parameter_events_writer,
            final(self).rosout_writer == old(self).rosout_writer,
            final(self).has_spinner == old(self).has_spinner,
    {
        self.writers.push(writer);
        proof {
            let pre = old(self).writers@;
            let post = self.writers@;
            assert forall|i: int, j: int|
                #![trigger post[i], post[j]]
                0 <= i < j < post.len() implies post[i] != post[j] by {
                if j < pre.len() {
                    assert(post[i] == pre[i] && post[j] == pre[j]);
                } else {
                    assert(post[i] == pre[i]);
                    assert(pre.contains(pre[i]));
                }
            }
            assert forall|g: Gid|
                !(self.spec_has_reader(g) && #[trigger] self.spec_has_writer(g)) by {
                if self.spec_has_writer(g) {
                    let k = choose|k: int| 0 <= k < post.len() && post[k] == g;
                    if k < pre.len() {
                        assert(pre[k] == g);
                        assert(old(self).spec_has_writer(g));
                    } else {
                        assert(g == writer);
                    }
                    assert(!old(self).spec_has_reader(g));
                    if self.spec_has_reader(g) {
                        let m = choose|m: int|
                            0 <= m < self.readers@.len() && self.readers@[m] == g;
                        assert(old(self).readers@[m] == g);
                        assert(old(self).spec_has_reader(g));
                    }
                }
            }
        }
    }

    /// Marks the spinner as taken. A node drives one spinner; the caller
    /// must not take a second.
    pub fn take_spinner(&mut self)
        requires
            old(self).wf(),
            !old(self).has_spinner,
        ensures
            final(self).wf(),
            *final(self) == (NodeCore { has_spinner: true, ..*old(self) }),
    {
        self.has_spinner = true;
        proof {
            lemma_wf_same_sets(*old(self), *self);
        }
    }

    /// The node's current graph entry: its fully-qualified name, the
    /// built-in writers, then every reader and writer created through it.
    pub fn generate_node_info(&self) -> (r: NodeEntitiesInfo)
        ensures
            r.node_name@ == spec_render(self.node_name.namespace@, self.node_name.base@),
            r.reader_guids@ == self.readers@,
            r.writer_guids@ == (match self.rosout_writer {
                Some(row) => seq![self.parameter_events_writer, row] + self.writers@,
                None => seq![self.parameter_events_writer] + self.writers@,
            }),
    {
        let mut info = NodeEntitiesInfo::new(self.fully_qualified_name());
        info.add_writer(self.parameter_events_writer);
        match self.rosout_writer {
            Some(row) => {
                info.add_writer(row);
            },
            None => {
            },
        }
        let mut i: usize = 0;
        while i < self.readers.len()
            invariant
                0 <= i <= self.readers@.len(),
                info.reader_guids@ == self.readers@.subrange(0, i as int),
                info.node_name@ == spec_render(self.node_name.namespace@, self.node_name.base@),
                info.writer_guids@ == (match self.rosout_writer {
                    Some(row) => seq![self.parameter_events_writer, row],
                    None => seq![self.parameter_events_writer],
                }),
            decreases self.readers@.len() - i,
        {
            info.add_reader(self.readers[i]);
            i = i + 1;
            proof {
                assert(self.readers@.subrange(0, i as int) =~= self.readers@.subrange(
                    0,
                    i as int - 1,
                ).push(self.readers@[i as int - 1]));
            }
        }
        proof {
            assert(self.readers@.subrange(0, self.readers@.len() as int) =~= self.readers@);
        }
        let mut j: usize = 0;
        let ghost builtin = info.writer_guids@;
        while j < self.writers.len()
            invariant
                0 <= j <= self.writers@.len(),
                info.reader_guids@ == self.readers@,
                info.node_name@ == spec_render(self.node_name.namespace@, self.node_name.base@),
                info.writer_guids@ == builtin + self.writers@.subrange(0, j as int),
            decreases self.writers@.len() - j,
        {
            info.add_writer(self.writers[j]);
            j = j + 1;
            proof {
                assert(builtin + self.writers@.subrange(0, j as int) =~= (builtin
                    + self.writers@.subrange(0, j as int - 1)).push(
                    self.writers@[j as int - 1],
                ));
            }
        }
        proof {
            assert(builtin + self.writers@.subrange(0, 0) =~= builtin);
            assert(self.writers@.subrange(0, self.writers@.len() as int) =~= self.writers@);
        }
        info
    }
}

/// Whether a reader already has a matched remote writer: the check
/// `wait_for_writer` makes before it starts listening for events.
pub fn writer_already_matched(state: &GraphState, reader: Guid) -> (r: bool)
    requires
        state.wf(),
    ensures
        r == exists|w: Guid| state.readers_to_remote_writers.spec_matched(reader, w),
{
    state.readers_to_remote_writers.has_matches(reader)
}

/// Whether a writer already has a matched remote reader: the check
/// `wait_for_reader` makes before it starts listening for events.
pub fn reader_already_matched(state: &GraphState, writer: Guid) -> (r: bool)
    requires
        state.wf(),
    ensures
        r == exists|w: Guid| state.writers_to_remote_readers.spec_matched(writer, w),
{
    state.writers_to_remote_readers.has_matches(writer)
}

/// Whether one discovery event resolves a wait for a writer on the given
/// reader.
pub fn event_completes_wait_for_writer(ev: &DdsDiscoveryEvent, reader: Guid) -> (r: bool)
    ensures
        r == (ev matches DdsDiscoveryEvent::RemoteWriterMatched { local_reader, .. }
            && local_reader == reader),
{
    match ev {
        DdsDiscoveryEvent::RemoteWriterMatched { local_reader, .. } => *local_reader == reader,
        _ => false,
    }
}

/// Whether one discovery event resolves a wait for a reader on the given
/// writer.
pub fn event_completes_wait_for_reader(ev: &DdsDiscoveryEvent, writer: Guid) -> (r: bool)
    ensures
        r == (ev matches DdsDiscoveryEvent::RemoteReaderMatched { local_writer, .. }
            && local_writer == writer),
{
    match ev {
        DdsDiscoveryEvent::RemoteReaderMatched { local_writer, .. } => *local_writer == writer,
        _ => false,
    }
}

/// `_action`: the sub-namespace the action's services and topics live in.
pub open spec fn spec_seg_action() -> Seq<u8> {
    seq![95u8, 97u8, 99u8, 116u8, 105u8, 111u8, 110u8]
}

fn seg_action() -> (r: Vec<u8>)
    ensures
        r@ == spec_seg_action(),
        crate::names::valid_base_bytes(r@),
{
    let mut v: Vec<u8> = Vec::new();
    v.push(95);
    v.push(97);
    v.push(99);
    v.push(116);
    v.push(105);
    v.push(111);
    v.push(110);
    proof {
        assert(v@ =~= spec_seg_action());
        crate::names::lemma_plain_segment_valid(v@);
    }
    v
}

/// `send_goal`: the goal service's name segment.
pub open spec fn spec_seg_send_goal() -> Seq<u8> {
    seq![115u8, 101u8, 110u8, 100u8, 95u8, 103u8, 111u8, 97u8, 108u8]
}

fn seg_send_goal() -> (r: Vec<u8>)
    ensures
        r@ == spec_seg_send_goal(),
        crate::names::valid_base_bytes(r@),
{
    let mut v: Vec<u8> = Vec::new();
    v.push(115);
    v.push(101);
    v.push(110);
    v.push(100);
    v.push(95);
    v.push(103);
    v.push(111);
    v.push(97);
    v.push(108);
    proof {
        assert(v@ =~= spec_seg_send_goal());
        crate::names::lemma_plain_segment_valid(v@);
    }
    v
}

/// `cancel_goal`: the cancel service's name segment.
pub open spec fn spec_seg_cancel_goal() -> Seq<u8> {
    seq![99u8, 97u8, 110u8, 99u8, 101u8, 108u8, 95u8, 103u8, 111u8, 97u8, 108u8]
}

fn seg_cancel_goal() -> (r: Vec<u8>)
    ensures
        r@ == spec_seg_cancel_goal(),
        crate::names::valid_base_bytes(r@),
{
    let mut v: Vec<u8> = Vec::new();
    v.push(99);
    v.push(97);
    v.push(110);
    v.push(99);
    v.push(101);
    v.push(108);
    v.push(95);
    v.push(103);
    v.push(111);
    v.push(97);
    v.push(108);
    proof {
        assert(v@ =~= spec_seg_cancel_goal());
        crate::names::lemma_plain_segment_valid(v@);
    }
    v
}

/// `get_result`: the result service's name segment.
pub open spec fn spec_seg_get_result() -> Seq<u8> {
    seq![103u8, 101u8, 116u8, 95u8, 114u8, 101u8, 115u8, 117u8, 108u8, 116u8]
}

fn seg_get_result() -> (r: Vec<u8>)
    ensures
        r@ == spec_seg_get_result(),
        crate::names::valid_base_bytes(r@),
{
    let mut v: Vec<u8> = Vec::new();
    v.push(103);
    v.push(101);
    v.push(116);
    v.push(95);
    v.push(114);
    v.push(101);
    v.push(115);
    v.push(117);
    v.push(108);
    v.push(116);
    proof {
        assert(v@ =~= spec_seg_get_result());
        crate::names::lemma_plain_segment_valid(v@);
    }
    v
}

/// `feedback`: the feedback topic's name segment.
pub open spec fn spec_seg_feedback() -> Seq<u8> {
    seq![102u8, 101u8, 101u8, 100u8, 98u8, 97u8, 99u8, 107u8]
}

fn seg_feedback() -> (r: Vec<u8>)
    ensures
        r@ == spec_seg_feedback(),
        crate::names::valid_base_bytes(r@),
{
    let mut v: Vec<u8> = Vec::new();
    v.push(102);
    v.push(101);
    v.push(101);
    v.push(100);
    v.push(98);
    v.push(97);
    v.push(99);
    v.push(107);
    proof {
        assert(v@ =~= spec_seg_feedback());
        crate::names::lemma_plain_segment_valid(v@);
    }
    v
}

/// `status`: the status topic's name segment.
pub open spec fn spec_seg_status() -> Seq<u8> {
    seq![115u8, 116u8, 97u8, 116u8, 117u8, 115u8]
}

fn seg_status() -> (r: Vec<u8>)
    ensures
        r@ == spec_seg_status(),
        crate::names::valid_base_bytes(r@),
{
    let mut v: Vec<u8> = Vec::new();
    v.push(115);
    v.push(116);
    v.push(97);
    v.push(116);
    v.push(117);
    v.push(115);
    proof {
        assert(v@ =~= spec_seg_status());
        crate::names::lemma_plain_segment_valid(v@);
    }
    v
}

/// `Request`: the request topic's name suffix.
pub open spec fn spec_suffix_request() -> Seq<u8> {
    seq![82u8, 101u8, 113u8, 117u8, 101u8, 115u8, 116u8]
}

fn suffix_request() -> (r: Vec<u8>)
    ensures
        r@ == spec_suffix_request(),
{
    let mut v: Vec<u8> = Vec::new();
    v.push(82);
    v.push(101);
    v.push(113);
    v.push(117);
    v.push(101);
    v.push(115);
    v.push(116);
    proof {
        assert(v@ =~= spec_suffix_request());
    }
    v
}

/// `Reply`: the reply topic's name suffix.
pub open spec fn spec_suffix_reply() -> Seq<u8> {
    seq![82u8, 101u8, 112u8, 108u8, 121u8]
}

fn suffix_reply() -> (r: Vec<u8>)
    ensures
        r@ == spec_suffix_reply(),
{
    let mut v: Vec<u8> = Vec::new();
    v.push(82);
    v.push(101);
    v.push(112);
    v.push(108);
    v.push(121);
    proof {
        assert(v@ =~= spec_suffix_reply());
    }
    v
}

/// `_SendGoal`: the goal service's type-name infix.
pub open spec fn spec_infix_send_goal() -> Seq<u8> {
    seq![95u8, 83u8, 101u8, 110u8, 100u8, 71u8, 111u8, 97u8, 108u8]
}

fn infix_send_goal() -> (r: Vec<u8>)
    ensures
        r@ == spec_infix_send_goal(),
{
    let mut v: Vec<u8> = Vec::new();
    v.push(95);
    v.push(83);
    v.push(101);
    v.push(110);
    v.push(100);
    v.push(71);
    v.push(111);
    v.push(97);
    v.push(108);
    proof {
        assert(v@ =~= spec_infix_send_goal());
    }
    v
}

/// `_GetResult`: the result service's type-name infix.
pub open spec fn spec_infix_get_result() -> Seq<u8> {
    seq![95u8, 71u8, 101u8, 116u8, 82u8, 101u8, 115u8, 117u8, 108u8, 116u8]
}

fn infix_get_result() -> (r: Vec<u8>)
    ensures
        r@ == spec_infix_get_result(),
{
    let mut v: Vec<u8> = Vec::new();
    v.push(95);
    v.push(71);
    v.push(101);
    v.push(116);
    v.push(82);
    v.push(101);
    v.push(115);
    v.push(117);
    v.push(108);
    v.push(116);
    proof {
        assert(v@ =~= spec_infix_get_result());
    }
    v
}

/// `_FeedbackMessage`: the feedback topic's type-name infix.
pub open spec fn spec_infix_feedback_message() -> Seq<u8> {
    seq![95u8, 70u8, 101u8, 101u8, 100u8, 98u8, 97u8, 99u8, 107u8, 77u8, 101u8, 115u8, 115u8, 97u8, 103u8, 101u8]
}

fn infix_feedback_message() -> (r: Vec<u8>)
    ensures
        r@ == spec_infix_feedback_message(),
{
    let mut v: Vec<u8> = Vec::new();
    v.push(95);
    v.push(70);
    v.push(101);
    v.push(101);
    v.push(100);
    v.push(98);
    v.push(97);
    v.push(99);
    v.push(107);
    v.push(77);
    v.push(101);
    v.push(115);
    v.push(115);
    v.push(97);
    v.push(103);
    v.push(101);
    proof {
        assert(v@ =~= spec_infix_feedback_message());
    }
    v
}

/// `action_msgs`: the package of the shared action messages.
pub open spec fn spec_pkg_action_msgs() -> Seq<u8> {
    seq![97u8, 99u8, 116u8, 105u8, 111u8, 110u8, 95u8, 109u8, 115u8, 103u8, 115u8]
}

fn pkg_action_msgs() -> (r: Vec<u8>)
    ensures
        r@ == spec_pkg_action_msgs(),
{
    let mut v: Vec<u8> = Vec::new();
    v.push(97);
    v.push(99);
    v.push(116);
    v.push(105);
    v.push(111);
    v.push(110);
    v.push(95);
    v.push(109);
    v.push(115);
    v.push(103);
    v.push(115);
    proof {
        assert(v@ =~= spec_pkg_action_msgs());
    }
    v
}

/// `CancelGoal`: the cancel service's type.
pub open spec fn spec_tn_cancel_goal() -> Seq<u8> {
    seq![67u8, 97u8, 110u8, 99u8, 101u8, 108u8, 71u8, 111u8, 97u8, 108u8]
}

fn tn_cancel_goal() -> (r: Vec<u8>)
    ensures
        r@ == spec_tn_cancel_goal(),
{
    let mut v: Vec<u8> = Vec::new();
    v.push(67);
    v.push(97);
    v.push(110);
    v.push(99);
    v.push(101);
    v.push(108);
    v.push(71);
    v.push(111);
    v.push(97);
    v.push(108);
    proof {
        assert(v@ =~= spec_tn_cancel_goal());
    }
    v
}

/// `GoalStatusArray`: the status topic's type.
pub open spec fn spec_tn_goal_status_array() -> Seq<u8> {
    seq![71u8, 111u8, 97u8, 108u8, 83u8, 116u8, 97u8, 116u8, 117u8, 115u8, 65u8, 114u8, 114u8, 97u8, 121u8]
}

fn tn_goal_status_array() -> (r: Vec<u8>)
    ensures
        r@ == spec_tn_goal_status_array(),
{
    let mut v: Vec<u8> = Vec::new();
    v.push(71);
    v.push(111);
    v.push(97);
    v.push(108);
    v.push(83);
    v.push(116);
    v.push(97);
    v.push(116);
    v.push(117);
    v.push(115);
    v.push(65);
    v.push(114);
    v.push(114);
    v.push(97);
    v.push(121);
    proof {
        assert(v@ =~= spec_tn_goal_status_array());
    }
    v
}

/// One DDS endpoint: the topic name and the type string it carries.
pub struct TopicEndpoint {
    pub topic_name: Vec<u8>,
    pub type_string: Vec<u8>,
}

/// The two topics one service is carried on.
pub struct ServiceEndpoints {
    pub request: TopicEndpoint,
    pub reply: TopicEndpoint,
}

/// The five endpoints an action is built from: three services plus the
/// feedback and status topics.
pub struct ActionEndpoints {
    pub goal: ServiceEndpoints,
    pub cancel: ServiceEndpoints,
    pub result: ServiceEndpoints,
    pub feedback: TopicEndpoint,
    pub status: TopicEndpoint,
}

impl NodeCore {
    /// The DDS names for one plain topic: `rt/<namespace>/<name>` and the
    /// message type string.
    pub fn topic_dds_names(&self, name: &Name, ty: &MessageTypeName) -> (r: TopicEndpoint)
        requires
            name.wf(),
        ensures
            ({
                let res = spec_resolve(name.namespace@, name.base@, self.node_name.namespace@,
                    self.node_name.base@);
                r.topic_name@ == spec_dds_name(TopicPrefix::Topic.spec_bytes(), res.0, res.1,
                    Seq::empty())
            }),
            r.type_string@ == spec_dds_type(ty.package@, ty.category@, ty.typename@,
                seq![B_LOW_LINE]),
    {
        let suffix: Vec<u8> = Vec::new();
        proof {
            assert(suffix@ =~= Seq::<u8>::empty());
        }
        TopicEndpoint {
            topic_name: name.to_dds_name(TopicPrefix::Topic, &self.node_name, &suffix),
            type_string: ty.dds_msg_type(),
        }
    }

    /// The DDS names for one service: the request topic `rq/...Request` and
    /// the reply topic `rr/...Reply`, with the two halves of the type.
    pub fn service_dds_names(&self, service_name: &Name, ty: &ServiceTypeName) -> (r:
        ServiceEndpoints)
        requires
            service_name.wf(),
        ensures
            ({
                let res = spec_resolve(service_name.namespace@, service_name.base@,
                    self.node_name.namespace@, self.node_name.base@);
                &&& r.request.topic_name@ == spec_dds_name(
                    TopicPrefix::ServiceRequest.spec_bytes(),
                    res.0,
                    res.1,
                    spec_suffix_request(),
                )
                &&& r.reply.topic_name@ == spec_dds_name(
                    TopicPrefix::ServiceReply.spec_bytes(),
                    res.0,
                    res.1,
                    spec_suffix_reply(),
                )
            }),
            r.request.type_string@ == spec_dds_type(ty.package@, ty.category@, ty.typename@,
                spec_request_suffix()),
            r.reply.type_string@ == spec_dds_type(ty.package@, ty.category@, ty.typename@,
                spec_response_suffix()),
    {
        let rq_suffix = suffix_request();
        let rr_suffix = suffix_reply();
        ServiceEndpoints {
            request: TopicEndpoint {
                topic_name: service_name.to_dds_name(TopicPrefix::ServiceRequest, &self.node_name,
                    &rq_suffix),
                type_string: ty.dds_request_type(),
            },
            reply: TopicEndpoint {
                topic_name: service_name.to_dds_name(TopicPrefix::ServiceReply, &self.node_name,
                    &rr_suffix),
                type_string: ty.dds_response_type(),
            },
        }
    }

    /// The DDS names of everything one action client or server creates: the
    /// send-goal, cancel-goal and get-result services and the feedback and
    /// status topics, all under `<action>/_action/`. Client and server use
    /// the same names; only the QoS differs.
    pub fn action_dds_names(&self, action_name: &Name, ty: &ActionTypeName) -> (r: ActionEndpoints)
        requires
            action_name.wf(),
        ensures
            ({
                let sub_ns = spec_join(spec_join(action_name.namespace@, action_name.base@),
                    spec_seg_action());
                let node_ns = self.node_name.namespace@;
                let node_base = self.node_name.base@;
                let goal_res = spec_resolve(sub_ns, spec_seg_send_goal(), node_ns, node_base);
                let cancel_res = spec_resolve(sub_ns, spec_seg_cancel_goal(), node_ns, node_base);
                let result_res = spec_resolve(sub_ns, spec_seg_get_result(), node_ns, node_base);
                let feedback_res = spec_resolve(sub_ns, spec_seg_feedback(), node_ns, node_base);
                let status_res = spec_resolve(sub_ns, spec_seg_status(), node_ns, node_base);
                &&& r.goal.request.topic_name@ == spec_dds_name(
                    TopicPrefix::ServiceRequest.spec_bytes(),
                    goal_res.0,
                    goal_res.1,
                    spec_suffix_request(),
                )
                &&& r.goal.reply.topic_name@ == spec_dds_name(
                    TopicPrefix::ServiceReply.spec_bytes(),
                    goal_res.0,
                    goal_res.1,
                    spec_suffix_reply(),
                )
                &&& r.goal.request.type_string@ == spec_dds_type(ty.package@,
                    spec_action_category(), ty.typename@ + spec_infix_send_goal(),
                    spec_request_suffix())
                &&& r.goal.reply.type_string@ == spec_dds_type(ty.package@,
                    spec_action_category(), ty.typename@ + spec_infix_send_goal(),
                    spec_response_suffix())
                &&& r.cancel.request.topic_name@ == spec_dds_name(
                    TopicPrefix::ServiceRequest.spec_bytes(),
                    cancel_res.0,
                    cancel_res.1,
                    spec_suffix_request(),
                )
                &&& r.cancel.reply.topic_name@ == spec_dds_name(
                    TopicPrefix::ServiceReply.spec_bytes(),
                    cancel_res.0,
                    cancel_res.1,
                    spec_suffix_reply(),
                )
                &&& r.cancel.request.type_string@ == spec_dds_type(spec_pkg_action_msgs(),
                    spec_srv_category(), spec_tn_cancel_goal(), spec_request_suffix())
                &&& r.cancel.reply.type_string@ == spec_dds_type(spec_pkg_action_msgs(),
                    spec_srv_category(), spec_tn_cancel_goal(), spec_response_suffix())
                &&& r.result.request.topic_name@ == spec_dds_name(
                    TopicPrefix::ServiceRequest.spec_bytes(),
                    result_res.0,
                    result_res.1,
                    spec_suffix_request(),
                )
                &&& r.result.reply.topic_name@ == spec_dds_name(
                    TopicPrefix::ServiceReply.spec_bytes(),
                    result_res.0,
                    result_res.1,
                    spec_suffix_reply(),
                )
                &&& r.result.request.type_string@ == spec_dds_type(ty.package@,
                    spec_action_category(), ty.typename@ + spec_infix_get_result(),
                    spec_request_suffix())
                &&& r.result.reply.type_string@ == spec_dds_type(ty.package@,
                    spec_action_category(), ty.typename@ + spec_infix_get_result(),
                    spec_response_suffix())
                &&& r.feedback.topic_name@ == spec_dds_name(TopicPrefix::Topic.spec_bytes(),
                    feedback_res.0, feedback_res.1, Seq::empty())
                &&& r.feedback.type_string@ == spec_dds_type(ty.package@, spec_action_category(),
                    ty.typename@ + spec_infix_feedback_message(), seq![B_LOW_LINE])
                &&& r.status.topic_name@ == spec_dds_name(TopicPrefix::Topic.spec_bytes(),
                    status_res.0, status_res.1, Seq::empty())
                &&& r.status.type_string@ == spec_dds_type(spec_pkg_action_msgs(),
                    spec_msg_category(), spec_tn_goal_status_array(), seq![B_LOW_LINE])
            }),
    {
        let services_base = action_name.child(seg_action());
        let goal_name = services_base.child(seg_send_goal());
        let goal_ty = ty.dds_action_service(&infix_send_goal());
        let goal = self.service_dds_names(&goal_name, &goal_ty);
        let cancel_name = services_base.child(seg_cancel_goal());
        let cancel_ty = ServiceTypeName::new(pkg_action_msgs(), tn_cancel_goal());
        let cancel = self.service_dds_names(&cancel_name, &cancel_ty);
        let result_name = services_base.child(seg_get_result());
        let result_ty = ty.dds_action_service(&infix_get_result());
        let result = self.service_dds_names(&result_name, &result_ty);
        let feedback_name = services_base.child(seg_feedback());
        let feedback_ty = ty.dds_action_topic(&infix_feedback_message());
        let feedback = self.topic_dds_names(&feedback_name, &feedback_ty);
        let status_name = services_base.child(seg_status());
        let status_ty = MessageTypeName::new(pkg_action_msgs(), tn_goal_status_array());
        let status = self.topic_dds_names(&status_name, &status_ty);
        ActionEndpoints { goal, cancel, result, feedback, status }
    }
}

} // verus!
