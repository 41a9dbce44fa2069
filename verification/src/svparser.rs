//! Declarations, references and the symbol table of one parsed SystemVerilog file.
//!
//! The parser hands the syntax tree over as the sequence of enter and leave events of a
//! depth-first walk; [`DeclCollector`] is the state machine that reads them.
use crate::strings::{clone_strings, to_string};
use crate::textutil::{is_linecol, linecol_at};
use vstd::prelude::*;

verus! {

/// The kind of a declared name.
#[derive(Clone, Copy, Debug, PartialEq, Eq, Structural)]
pub enum DeclType {
    Net,
    Var,
    Param,
    Typedef,
    Other,
}

/// One declared name.
#[derive(Clone, Debug)]
pub struct DeclInfo {
    pub name: String,
    pub kind: String,
    pub decl_type: DeclType,
    pub data_type: Option<String>,
    pub range: Option<(i64, i64)>,
    pub init: Option<String>,
    pub file: String,
    pub line: u32,
    pub col: u32,
    pub scope: Vec<String>,
    pub byte_begin: usize,
}

/// How a name is used where it is referenced.
#[derive(Clone, Copy, Debug, PartialEq, Eq, Structural)]
pub enum RefKind {
    Lhs,
    Rhs,
    PortConn,
    TypeRef,
}

/// One use of a name.
#[derive(Clone, Debug)]
pub struct ReferenceInfo {
    pub name: String,
    pub kind: RefKind,
    pub file: String,
    pub line: u32,
    pub col: u32,
    pub scope: Vec<String>,
    pub byte_begin: usize,
}

/// A declaration with the indices of the references to it and its read/write class.
#[derive(Clone, Debug)]
pub struct SymbolInfo {
    pub decl: DeclInfo,
    pub refs: Vec<usize>,
    pub rw_class: String,
}

/// One entry of a symbol table: a name within a scope.
#[derive(Clone, Debug)]
pub struct SymbolEntry {
    pub scope: String,
    pub name: String,
    pub info: SymbolInfo,
}

/// The symbols of a file, one entry per (scope, name), in the order of first declaration.
#[derive(Clone, Debug)]
pub struct SymbolTable {
    pub entries: Vec<SymbolEntry>,
}

/// The names the preprocessor had defined when it finished.
#[derive(Clone, Debug)]
pub struct FinalDefs {
    pub names: Vec<String>,
}

/// The syntax nodes that the collector reacts to.
#[derive(Clone, Copy, Debug, PartialEq, Eq, Structural)]
pub enum SvNode {
    /// An ANSI port declaration, a port declaration or a list of port declarations.
    PortDeclaration,
    InputDeclaration,
    OutputDeclaration,
    InoutDeclaration,
    DataDeclaration,
    /// A variable or net lvalue.
    Lvalue,
    PortIdentifier,
    /// A variable or net identifier.
    VarOrNetIdentifier,
    /// A parameter, local parameter or parameter port declaration.
    ParameterDeclaration,
    ParamAssignment,
    Identifier,
    TypeDeclaration,
    Other,
}

/// An identifier's text and the byte offset at which it starts.
#[derive(Clone, Debug)]
pub struct Ident {
    pub text: String,
    pub offset: usize,
}

/// Entering or leaving a node; `ident` is the identifier found under it, if any.
#[derive(Clone, Debug)]
pub struct SvEvent {
    pub enter: bool,
    pub node: SvNode,
    pub ident: Option<Ident>,
}

/// The direction keyword of the port declaration being walked.
#[derive(Clone, Copy, Debug, PartialEq, Eq, Structural)]
pub enum PortKind {
    Unset,
    Input,
    Output,
    Inout,
}

/// The context flags of the walk.
#[derive(Clone, Copy, Debug)]
pub struct ScanFlags {
    pub in_port_decl: bool,
    pub port_kind: PortKind,
    pub in_data_decl: bool,
    pub in_data_type_head: bool,
    pub in_param_decl: bool,
    pub in_param_assign: bool,
    pub in_typedef: bool,
    pub lhs_depth: i32,
}

/// What a recorded declaration says, beyond the fields that are the same for all of them.
pub struct DeclRec {
    pub name: Seq<char>,
    pub kind: Seq<char>,
    pub decl_type: DeclType,
    pub at: usize,
}

/// What a recorded reference says, beyond the fields that are the same for all of them.
pub struct RefRec {
    pub name: Seq<char>,
    pub kind: RefKind,
    pub at: usize,
}

/// The abstract state of the walk.
pub struct ScanState {
    pub flags: ScanFlags,
    pub typedef_last: Option<(Seq<char>, usize)>,
    pub decls: Seq<DeclRec>,
    pub refs: Seq<RefRec>,
}

/// An event as plain values.
pub struct EventRec {
    pub enter: bool,
    pub node: SvNode,
    pub ident: Option<(Seq<char>, usize)>,
}

/// The plain values of an event.
pub open spec fn event_rec(e: SvEvent) -> EventRec {
    EventRec {
        enter: e.enter,
        node: e.node,
        ident: ident_rec(e.ident),
    }
}

/// The plain values of a sequence of events.
pub open spec fn event_recs(evs: Seq<SvEvent>) -> Seq<EventRec> {
    evs.map_values(|e: SvEvent| event_rec(e))
}

/// The flags at the start of a walk.
pub open spec fn initial_flags() -> ScanFlags {
    ScanFlags {
        in_port_decl: false,
        port_kind: PortKind::Unset,
        in_data_decl: false,
        in_data_type_head: false,
        in_param_decl: false,
        in_param_assign: false,
        in_typedef: false,
        lhs_depth: 0,
    }
}

/// The state at the start of a walk.
pub open spec fn initial_state() -> ScanState {
    ScanState { flags: initial_flags(), typedef_last: None, decls: Seq::empty(), refs: Seq::empty() }
}

/// Whether `name` is already declared other than as a typedef.
pub open spec fn declared(decls: Seq<DeclRec>, name: Seq<char>) -> bool {
    exists|i: int| 0 <= i < decls.len() && decls[i].decl_type != DeclType::Typedef && #[trigger] decls[i].name == name
}

/// The kind text of a port declared under `k`.
pub open spec fn port_kind_text(k: PortKind) -> Seq<char> {
    match k {
        PortKind::Unset => "port"@,
        PortKind::Input => "input"@,
        PortKind::Output => "output"@,
        PortKind::Inout => "inout"@,
    }
}

/// `decls` with a declaration of `name` added, unless the name is already declared.
pub open spec fn declare_once(decls: Seq<DeclRec>, name: Seq<char>, kind: Seq<char>, t: DeclType, at: usize) -> Seq<DeclRec> {
    if declared(decls, name) {
        decls
    } else {
        decls.push(DeclRec { name, kind, decl_type: t, at })
    }
}

/// The state after entering a node.
pub open spec fn scan_enter(s: ScanState, node: SvNode, ident: Option<(Seq<char>, usize)>) -> ScanState {
    let f = s.flags;
    match node {
        SvNode::PortDeclaration => ScanState { flags: ScanFlags { in_port_decl: true, ..f }, ..s },
        SvNode::InputDeclaration => ScanState { flags: ScanFlags { port_kind: PortKind::Input, ..f }, ..s },
        SvNode::OutputDeclaration => ScanState { flags: ScanFlags { port_kind: PortKind::Output, ..f }, ..s },
        SvNode::InoutDeclaration => ScanState { flags: ScanFlags { port_kind: PortKind::Inout, ..f }, ..s },
        SvNode::DataDeclaration => ScanState {
            flags: ScanFlags { in_data_decl: true, in_data_type_head: true, ..f },
            ..s
        },
        SvNode::Lvalue => ScanState { flags: ScanFlags { lhs_depth: (f.lhs_depth + 1) as i32, ..f }, ..s },
        SvNode::PortIdentifier => match ident {
            Some((name, at)) => if f.in_port_decl || f.port_kind != PortKind::Unset {
                ScanState { decls: declare_once(s.decls, name, port_kind_text(f.port_kind), DeclType::Var, at), ..s }
            } else {
                s
            },
            None => s,
        },
        SvNode::VarOrNetIdentifier => if f.in_data_decl {
            let s2 = ScanState { flags: ScanFlags { in_data_type_head: false, ..f }, ..s };
            match ident {
                Some((name, at)) => ScanState {
                    decls: declare_once(s.decls, name, "var"@, DeclType::Var, at),
                    ..s2
                },
                None => s2,
            }
        } else {
            s
        },
        SvNode::ParameterDeclaration => ScanState { flags: ScanFlags { in_param_decl: true, ..f }, ..s },
        SvNode::ParamAssignment => if f.in_param_decl {
            ScanState { flags: ScanFlags { in_param_assign: true, ..f }, ..s }
        } else {
            s
        },
        SvNode::Identifier => match ident {
            None => s,
            Some((name, at)) => if f.in_port_decl {
                ScanState { decls: declare_once(s.decls, name, "port"@, DeclType::Var, at), ..s }
            } else if f.in_param_assign {
                ScanState { decls: declare_once(s.decls, name, "parameter"@, DeclType::Param, at), ..s }
            } else if f.in_typedef {
                ScanState { typedef_last: Some((name, at)), ..s }
            } else {
                let k = if f.in_data_decl && f.in_data_type_head {
                    RefKind::TypeRef
                } else if f.lhs_depth > 0 {
                    RefKind::Lhs
                } else {
                    RefKind::Rhs
                };
                ScanState { refs: s.refs.push(RefRec { name, kind: k, at }), ..s }
            },
        },
        SvNode::TypeDeclaration => ScanState {
            flags: ScanFlags { in_typedef: true, ..f },
            typedef_last: None,
            ..s
        },
        SvNode::Other => s,
    }
}

/// The state after leaving a node.
pub open spec fn scan_leave(s: ScanState, node: SvNode) -> ScanState {
    let f = s.flags;
    match node {
        SvNode::PortDeclaration => ScanState { flags: ScanFlags { in_port_decl: false, ..f }, ..s },
        SvNode::InputDeclaration | SvNode::OutputDeclaration | SvNode::InoutDeclaration => ScanState {
            flags: ScanFlags { port_kind: PortKind::Unset, ..f },
            ..s
        },
        SvNode::DataDeclaration => ScanState {
            flags: ScanFlags { in_data_decl: false, in_data_type_head: false, ..f },
            ..s
        },
        SvNode::Lvalue => ScanState { flags: ScanFlags { lhs_depth: (f.lhs_depth - 1) as i32, ..f }, ..s },
        SvNode::ParamAssignment => ScanState { flags: ScanFlags { in_param_assign: false, ..f }, ..s },
        SvNode::ParameterDeclaration => ScanState { flags: ScanFlags { in_param_decl: false, ..f }, ..s },
        SvNode::TypeDeclaration => {
            let decls = match s.typedef_last {
                Some((name, at)) => s.decls.push(DeclRec { name, kind: "typedef"@, decl_type: DeclType::Typedef, at }),
                None => s.decls,
            };
            ScanState { flags: ScanFlags { in_typedef: false, ..f }, typedef_last: None, decls, ..s }
        },
        _ => s,
    }
}

/// The state after one event.
pub open spec fn scan_step(s: ScanState, e: EventRec) -> ScanState {
    if e.enter {
        scan_enter(s, e.node, e.ident)
    } else {
        scan_leave(s, e.node)
    }
}

/// The state after a sequence of events, from the initial state.
pub open spec fn scan_events(evs: Seq<EventRec>) -> ScanState
    decreases evs.len(),
{
    if evs.len() == 0 {
        initial_state()
    } else {
        scan_step(scan_events(evs.drop_last()), evs.last())
    }
}

/// Whether `d` records `r` in `file`, with the fields that every recorded declaration shares.
pub open spec fn decl_records(d: DeclInfo, r: DeclRec, file: Seq<char>) -> bool {
    &&& d.name@ == r.name
    &&& d.kind@ == r.kind
    &&& d.decl_type == r.decl_type
    &&& d.byte_begin == r.at
    &&& d.data_type is None
    &&& d.range is None
    &&& d.init is None
    &&& d.file@ == file
    &&& d.line == 1
    &&& d.col == 1
    &&& d.scope@.len() == 0
}

/// Whether `x` records `r` in `file`, with the fields that every recorded reference shares.
pub open spec fn ref_records(x: ReferenceInfo, r: RefRec, file: Seq<char>) -> bool {
    &&& x.name@ == r.name
    &&& x.kind == r.kind
    &&& x.byte_begin == r.at
    &&& x.file@ == file
    &&& x.line == 1
    &&& x.col == 1
    &&& x.scope@.len() == 0
}

/// The walk in progress: the context flags and what has been recorded so far.
pub struct DeclCollector {
    pub flags: ScanFlags,
    pub typedef_last: Option<Ident>,
    pub declarations: Vec<DeclInfo>,
    pub references: Vec<ReferenceInfo>,
    pub file: String,
}

/// What a declaration records.
pub open spec fn decl_rec_of(d: DeclInfo) -> DeclRec {
    DeclRec { name: d.name@, kind: d.kind@, decl_type: d.decl_type, at: d.byte_begin }
}

/// What a reference records.
pub open spec fn ref_rec_of(x: ReferenceInfo) -> RefRec {
    RefRec { name: x.name@, kind: x.kind, at: x.byte_begin }
}

/// What each declaration records.
pub open spec fn decl_recs(ds: Seq<DeclInfo>) -> Seq<DeclRec> {
    ds.map_values(|d: DeclInfo| decl_rec_of(d))
}

/// What each reference records.
pub open spec fn ref_recs(xs: Seq<ReferenceInfo>) -> Seq<RefRec> {
    xs.map_values(|x: ReferenceInfo| ref_rec_of(x))
}

/// The plain values of a pending typedef name.
pub open spec fn ident_rec(i: Option<Ident>) -> Option<(Seq<char>, usize)> {
    match i {
        Some(i) => Some((i.text@, i.offset)),
        None => None,
    }
}

impl DeclCollector {
    /// The abstract state.
    pub open spec fn state(&self) -> ScanState {
        ScanState {
            flags: self.flags,
            typedef_last: ident_rec(self.typedef_last),
            decls: decl_recs(self.declarations@),
            refs: ref_recs(self.references@),
        }
    }

    /// Every recorded item carries the collector's file and the shared fields.
    pub open spec fn wf(&self) -> bool {
        &&& forall|i: int| 0 <= i < self.declarations@.len() ==> decl_records(
            #[trigger] self.declarations@[i],
            decl_rec_of(self.declarations@[i]),
            self.file@,
        )
        &&& forall|i: int| 0 <= i < self.references@.len() ==> ref_records(
            #[trigger] self.references@[i],
            ref_rec_of(self.references@[i]),
            self.file@,
        )
    }

    /// A collector at the start of a walk over `file`.
    pub fn new(file: &str) -> (r: Self)
        ensures
            r.wf(),
            r.file@ == file@,
            r.state() == initial_state(),
    {
        let r = DeclCollector {
            flags: ScanFlags {
                in_port_decl: false,
                port_kind: PortKind::Unset,
                in_data_decl: false,
                in_data_type_head: false,
                in_param_decl: false,
                in_param_assign: false,
                in_typedef: false,
                lhs_depth: 0,
            },
            typedef_last: None,
            declarations: Vec::new(),
            references: Vec::new(),
            file: to_string(file),
        };
        assert(r.state().decls =~= Seq::<DeclRec>::empty());
        assert(r.state().refs =~= Seq::<RefRec>::empty());
        r
    }

    /// Whether `name` is declared other than as a typedef.
    fn is_declared(&self, name: &String) -> (r: bool)
        ensures
            r == declared(self.state().decls, name@),
    {
        let ghost decls = self.state().decls;
        let mut i: usize = 0;
        while i < self.declarations.len()
            invariant
                i <= self.declarations@.len(),
                decls == self.state().decls,
                forall|k: int| 0 <= k < i ==> !(decls[k].decl_type != DeclType::Typedef && decls[k].name == name@),
            decreases self.declarations@.len() - i,
        {
            let d = &self.declarations[i];
            if d.decl_type != DeclType::Typedef && d.name == *name {
                assert(decls[i as int].name == name@);
                return true;
            }
            i += 1;
        }
        false
    }

    /// Records a declaration of `name` with the shared fields.
    fn push_decl(&mut self, name: String, kind: &str, t: DeclType, at: usize)
        requires
            old(self).wf(),
        ensures
            final(self).wf(),
            final(self).file == old(self).file,
            final(self).flags == old(self).flags,
            final(self).typedef_last == old(self).typedef_last,
            final(self).state().refs == old(self).state().refs,
            final(self).state().decls == old(self).state().decls.push(
                DeclRec { name: name@, kind: kind@, decl_type: t, at },
            ),
    {
        let d = DeclInfo {
            name,
            kind: to_string(kind),
            decl_type: t,
            data_type: None,
            range: None,
            init: None,
            file: self.file.clone(),
            line: 1,
            col: 1,
            scope: Vec::new(),
            byte_begin: at,
        };
        self.declarations.push(d);
        assert(self.state().decls =~= old(self).state().decls.push(
            DeclRec { name: name@, kind: kind@, decl_type: t, at },
        ));
        assert(self.state().refs =~= old(self).state().refs);
    }

    /// Records a declaration of `name` unless it is already declared.
    fn declare(&mut self, name: String, kind: &str, t: DeclType, at: usize)
        requires
            old(self).wf(),
        ensures
            final(self).wf(),
            final(self).file == old(self).file,
            final(self).flags == old(self).flags,
            final(self).typedef_last == old(self).typedef_last,
            final(self).state().refs == old(self).state().refs,
            final(self).state().decls == declare_once(old(self).state().decls, name@, kind@, t, at),
    {
        if !self.is_declared(&name) {
            self.push_decl(name, kind, t, at);
        }
    }

    /// Records a reference to `name`.
    fn push_ref(&mut self, name: String, k: RefKind, at: usize)
        requires
            old(self).wf(),
        ensures
            final(self).wf(),
            final(self).file == old(self).file,
            final(self).flags == old(self).flags,
            final(self).typedef_last == old(self).typedef_last,
            final(self).state().decls == old(self).state().decls,
            final(self).state().refs == old(self).state().refs.push(RefRec { name: name@, kind: k, at }),
    {
        let x = ReferenceInfo {
            name,
            kind: k,
            file: self.file.clone(),
            line: 1,
            col: 1,
            scope: Vec::new(),
            byte_begin: at,
        };
        self.references.push(x);
        assert(self.state().refs =~= old(self).state().refs.push(RefRec { name: name@, kind: k, at }));
        assert(self.state().decls =~= old(self).state().decls);
    }

    /// Handles one event of the walk.
    pub fn step(&mut self, ev: SvEvent)
        requires
            old(self).wf(),
            ev.enter && ev.node == SvNode::Lvalue ==> old(self).flags.lhs_depth < i32::MAX,
            !ev.enter && ev.node == SvNode::Lvalue ==> old(self).flags.lhs_depth > i32::MIN,
        ensures
            final(self).wf(),
            final(self).file == old(self).file,
            final(self).state() == scan_step(old(self).state(), event_rec(ev)),
    {
        if ev.enter {
            self.enter(ev.node, ev.ident);
        } else {
            self.leave(ev.node);
        }
    }

    fn enter(&mut self, node: SvNode, ident: Option<Ident>)
        requires
            old(self).wf(),
            node == SvNode::Lvalue ==> old(self).flags.lhs_depth < i32::MAX,
        ensures
            final(self).wf(),
            final(self).file == old(self).file,
            final(self).state() == scan_enter(old(self).state(), node, ident_rec(ident)),
    {
        match node {
            SvNode::PortDeclaration => {
                self.flags.in_port_decl = true;
            },
            SvNode::InputDeclaration => {
                self.flags.port_kind = PortKind::Input;
            },
            SvNode::OutputDeclaration => {
                self.flags.port_kind = PortKind::Output;
            },
            SvNode::InoutDeclaration => {
                self.flags.port_kind = PortKind::Inout;
            },
            SvNode::DataDeclaration => {
                self.flags.in_data_decl = true;
                self.flags.in_data_type_head = true;
            },
            SvNode::Lvalue => {
                self.flags.lhs_depth = self.flags.lhs_depth + 1;
            },
            SvNode::PortIdentifier => {
                if self.flags.in_port_decl || self.flags.port_kind != PortKind::Unset {
                    if let Some(id) = ident {
                        let kind = match self.flags.port_kind {
                            PortKind::Unset => "port",
                            PortKind::Input => "input",
                            PortKind::Output => "output",
                            PortKind::Inout => "inout",
                        };
                        self.declare(id.text, kind, DeclType::Var, id.offset);
                    }
                }
            },
            SvNode::VarOrNetIdentifier => {
                if self.flags.in_data_decl {
                    self.flags.in_data_type_head = false;
                    if let Some(id) = ident {
                        self.declare(id.text, "var", DeclType::Var, id.offset);
                    }
                }
            },
            SvNode::ParameterDeclaration => {
                self.flags.in_param_decl = true;
            },
            SvNode::ParamAssignment => {
                if self.flags.in_param_decl {
                    self.flags.in_param_assign = true;
                }
            },
            SvNode::Identifier => {
                if let Some(id) = ident {
                    if self.flags.in_port_decl {
                        self.declare(id.text, "port", DeclType::Var, id.offset);
                    } else if self.flags.in_param_assign {
                        self.declare(id.text, "parameter", DeclType::Param, id.offset);
                    } else if self.flags.in_typedef {
                        self.typedef_last = Some(id);
                    } else {
                        let k = if self.flags.in_data_decl && self.flags.in_data_type_head {
                            RefKind::TypeRef
                        } else if self.flags.lhs_depth > 0 {
                            RefKind::Lhs
                        } else {
                            RefKind::Rhs
                        };
                        self.push_ref(id.text, k, id.offset);
                    }
                }
            },
            SvNode::TypeDeclaration => {
                self.flags.in_typedef = true;
                self.typedef_last = None;
            },
            SvNode::Other => {},
        }
    }

    fn leave(&mut self, node: SvNode)
        requires
            old(self).wf(),
            node == SvNode::Lvalue ==> old(self).flags.lhs_depth > i32::MIN,
        ensures
            final(self).wf(),
            final(self).file == old(self).file,
            final(self).state() == scan_leave(old(self).state(), node),
    {
        match node {
            SvNode::PortDeclaration => {
                self.flags.in_port_decl = false;
            },
            SvNode::InputDeclaration | SvNode::OutputDeclaration | SvNode::InoutDeclaration => {
                self.flags.port_kind = PortKind::Unset;
            },
            SvNode::DataDeclaration => {
                self.flags.in_data_decl = false;
                self.flags.in_data_type_head = false;
            },
            SvNode::Lvalue => {
                self.flags.lhs_depth = self.flags.lhs_depth - 1;
            },
            SvNode::ParamAssignment => {
                self.flags.in_param_assign = false;
            },
            SvNode::ParameterDeclaration => {
                self.flags.in_param_decl = false;
            },
            SvNode::TypeDeclaration => {
                let last = self.typedef_last.take();
                if let Some(id) = last {
                    self.push_decl(id.text, "typedef", DeclType::Typedef, id.offset);
                }
                self.flags.in_typedef = false;
            },
            _ => {},
        }
    }
}

/// The declarations and references of one file, read from the events of a walk over its tree.
pub fn collect_declarations_and_references(events: Vec<SvEvent>, file: &str) -> (r: (
    Vec<DeclInfo>,
    Vec<ReferenceInfo>,
))
    requires
        events@.len() < i32::MAX,
    ensures
        r.0@.len() == scan_events(event_recs(events@)).decls.len(),
        r.1@.len() == scan_events(event_recs(events@)).refs.len(),
        forall|i: int|
            0 <= i < r.0@.len() ==> decl_records(
                #[trigger] r.0@[i],
                scan_events(event_recs(events@)).decls[i],
                file@,
            ),
        forall|i: int|
            0 <= i < r.1@.len() ==> ref_records(
                #[trigger] r.1@[i],
                scan_events(event_recs(events@)).refs[i],
                file@,
            ),
{
    let mut c = DeclCollector::new(file);
    let ghost evs = event_recs(events@);
    let mut i: usize = 0;
    while i < events.len()
        invariant
            i <= events@.len(),
            events@.len() < i32::MAX,
            evs == event_recs(events@),
            c.wf(),
            c.file@ == file@,
            c.state() == scan_events(evs.take(i as int)),
            -(i as int) <= c.flags.lhs_depth <= i,
        decreases events@.len() - i,
    {
        let ev = events[i].clone_event();
        assert(evs.take(i + 1).drop_last() =~= evs.take(i as int));
        c.step(ev);
        i += 1;
    }
    assert(evs.take(events@.len() as int) =~= evs);
    let ghost st = c.state();
    proof {
        assert forall|k: int| 0 <= k < c.declarations@.len() implies decl_records(
            #[trigger] c.declarations@[k],
            st.decls[k],
            file@,
        ) by {
            assert(decl_records(c.declarations@[k], decl_rec_of(c.declarations@[k]), c.file@));
        }
        assert forall|k: int| 0 <= k < c.references@.len() implies ref_records(
            #[trigger] c.references@[k],
            st.refs[k],
            file@,
        ) by {
            assert(ref_records(c.references@[k], ref_rec_of(c.references@[k]), c.file@));
        }
    }
    (c.declarations, c.references)
}

impl Ident {
    /// A copy with the same text and offset.
    pub fn clone_ident(&self) -> (r: Self)
        ensures
            r.text@ == self.text@,
            r.offset == self.offset,
    {
        Ident { text: self.text.clone(), offset: self.offset }
    }
}

impl SvEvent {
    /// A copy with the same plain values.
    pub fn clone_event(&self) -> (r: Self)
        ensures
            event_rec(r) == event_rec(*self),
    {
        let ident = match &self.ident {
            Some(i) => Some(i.clone_ident()),
            None => None,
        };
        SvEvent { enter: self.enter, node: self.node, ident }
    }
}

/// The names of a scope path joined by `"::"`.
pub open spec fn join_scope(s: Seq<Seq<char>>) -> Seq<char>
    decreases s.len(),
{
    if s.len() == 0 {
        Seq::empty()
    } else if s.len() == 1 {
        s[0]
    } else {
        join_scope(s.drop_last()) + "::"@ + s.last()
    }
}

/// The key of a scope path: `"::"` for the top level, else its names joined by `"::"`.
pub open spec fn scope_key_spec(s: Seq<Seq<char>>) -> Seq<char> {
    if s.len() == 0 {
        "::"@
    } else {
        join_scope(s)
    }
}

/// The character sequences of a list of strings.
pub open spec fn str_views(v: Seq<String>) -> Seq<Seq<char>> {
    v.map_values(|s: String| s@)
}

/// The key of a scope path.
pub fn scope_key(scope: &[String]) -> (r: String)
    ensures
        r@ == scope_key_spec(str_views(scope@)),
{
    if scope.len() == 0 {
        return to_string("::");
    }
    let mut r = scope[0].clone();
    let mut i: usize = 1;
    assert(str_views(scope@.take(1)) =~= seq![scope@[0]@]);
    while i < scope.len()
        invariant
            1 <= i <= scope@.len(),
            r@ == join_scope(str_views(scope@.take(i as int))),
        decreases scope@.len() - i,
    {
        r.append("::");
        r.append(scope[i].as_str());
        assert(str_views(scope@.take(i + 1)).drop_last() =~= str_views(scope@.take(i as int)));
        i += 1;
    }
    assert(scope@.take(scope@.len() as int) =~= scope@);
    r
}

/// A (scope key, name) pair.
pub type SymKey = (Seq<char>, Seq<char>);

/// The key of a declaration.
pub open spec fn decl_key(d: DeclInfo) -> SymKey {
    (scope_key_spec(str_views(d.scope@)), d.name@)
}

/// The key of a reference.
pub open spec fn ref_key(x: ReferenceInfo) -> SymKey {
    (scope_key_spec(str_views(x.scope@)), x.name@)
}

/// The keys of the declarations, in order.
pub open spec fn decl_keys(ds: Seq<DeclInfo>) -> Seq<SymKey> {
    ds.map_values(|d: DeclInfo| decl_key(d))
}

/// The keys of the references, in order.
pub open spec fn ref_keys(xs: Seq<ReferenceInfo>) -> Seq<SymKey> {
    xs.map_values(|x: ReferenceInfo| ref_key(x))
}

/// The distinct keys of `ks`, in the order of their first occurrence.
pub open spec fn table_keys(ks: Seq<SymKey>) -> Seq<SymKey>
    decreases ks.len(),
{
    if ks.len() == 0 {
        Seq::empty()
    } else {
        let p = table_keys(ks.drop_last());
        if p.contains(ks.last()) {
            p
        } else {
            p.push(ks.last())
        }
    }
}

/// The index of the last occurrence of `k` in `ks`, or -1.
pub open spec fn last_with(ks: Seq<SymKey>, k: SymKey) -> int
    decreases ks.len(),
{
    if ks.len() == 0 {
        -1
    } else if ks.last() == k {
        ks.len() - 1
    } else {
        last_with(ks.drop_last(), k)
    }
}

/// The indices at which `k` occurs in `ks`, in increasing order.
pub open spec fn indices_of(ks: Seq<SymKey>, k: SymKey) -> Seq<usize>
    decreases ks.len(),
{
    if ks.len() == 0 {
        Seq::empty()
    } else if ks.last() == k {
        indices_of(ks.drop_last(), k).push((ks.len() - 1) as usize)
    } else {
        indices_of(ks.drop_last(), k)
    }
}

/// Whether one of the references at `idxs` has one of the kinds `a` or `b`.
pub open spec fn any_kind(xs: Seq<ReferenceInfo>, idxs: Seq<usize>, a: RefKind, b: RefKind) -> bool {
    exists|j: int| 0 <= j < idxs.len() && (xs[idxs[j] as int].kind == a || xs[idxs[j] as int].kind == b)
}

/// The read/write class of a name referenced at `idxs`: written (`Lhs`), read (`Rhs` or `TypeRef`),
/// both or neither.
pub open spec fn rw_class_spec(xs: Seq<ReferenceInfo>, idxs: Seq<usize>) -> Seq<char> {
    let w = any_kind(xs, idxs, RefKind::Lhs, RefKind::Lhs);
    let r = any_kind(xs, idxs, RefKind::Rhs, RefKind::TypeRef);
    if w && r {
        "read_write"@
    } else if w {
        "write_only"@
    } else if r {
        "read_only"@
    } else {
        "unused"@
    }
}

/// Whether two declarations hold the same values.
pub open spec fn same_decl(a: DeclInfo, b: DeclInfo) -> bool {
    &&& a.name@ == b.name@
    &&& a.kind@ == b.kind@
    &&& a.decl_type == b.decl_type
    &&& a.data_type == b.data_type
    &&& a.range == b.range
    &&& a.init == b.init
    &&& a.file@ == b.file@
    &&& a.line == b.line
    &&& a.col == b.col
    &&& a.scope@ == b.scope@
    &&& a.byte_begin == b.byte_begin
}

impl DeclInfo {
    /// A copy holding the same values.
    pub fn copy(&self) -> (r: Self)
        ensures
            same_decl(r, *self),
    {
        DeclInfo {
            name: self.name.clone(),
            kind: self.kind.clone(),
            decl_type: self.decl_type,
            data_type: match &self.data_type {
                Some(t) => Some(t.clone()),
                None => None,
            },
            range: self.range,
            init: match &self.init {
                Some(t) => Some(t.clone()),
                None => None,
            },
            file: self.file.clone(),
            line: self.line,
            col: self.col,
            scope: clone_strings(self.scope.as_slice()),
            byte_begin: self.byte_begin,
        }
    }
}

/// Whether `e` is the table entry of key `k` for declarations `ds` and references `xs`.
pub open spec fn entry_for(e: SymbolEntry, k: SymKey, ds: Seq<DeclInfo>, xs: Seq<ReferenceInfo>) -> bool {
    let idxs = indices_of(ref_keys(xs), k);
    &&& e.scope@ == k.0
    &&& e.name@ == k.1
    &&& same_decl(e.info.decl, ds[last_with(decl_keys(ds), k)])
    &&& e.info.refs@ == idxs
    &&& e.info.rw_class@ == rw_class_spec(xs, idxs)
}

/// Whether `t` is the symbol table of declarations `ds` and references `xs`: one entry per
/// distinct key, in the order of first declaration, holding the last declaration of that key,
/// the indices of the references with that key and their read/write class.
pub open spec fn is_symbol_table(t: SymbolTable, ds: Seq<DeclInfo>, xs: Seq<ReferenceInfo>) -> bool {
    let keys = table_keys(decl_keys(ds));
    &&& t.entries@.len() == keys.len()
    &&& forall|i: int| 0 <= i < keys.len() ==> entry_for(#[trigger] t.entries@[i], keys[i], ds, xs)
}

/// The keys of the table are pairwise distinct.
pub proof fn lemma_table_keys_distinct(ks: Seq<SymKey>)
    ensures
        forall|i: int, j: int| 0 <= i < j < table_keys(ks).len() ==> table_keys(ks)[i] != table_keys(ks)[j],
    decreases ks.len(),
{
    if ks.len() > 0 {
        lemma_table_keys_distinct(ks.drop_last());
        let p = table_keys(ks.drop_last());
        if !p.contains(ks.last()) {
            assert forall|i: int, j: int| 0 <= i < j < table_keys(ks).len() implies table_keys(ks)[i]
                != table_keys(ks)[j] by {
                if j == p.len() {
                    assert(p[i] == table_keys(ks)[i]);
                }
            }
        }
    }
}

/// The indices of the references with key (`scope`, `name`), given each reference's scope key.
fn refs_with_key(references: &[ReferenceInfo], rscopes: &Vec<String>, scope: &String, name: &String) -> (r: Vec<
    usize,
>)
    requires
        rscopes@.len() == references@.len(),
        forall|i: int| 0 <= i < rscopes@.len() ==> #[trigger] rscopes@[i]@ == ref_key(references@[i]).0,
    ensures
        r@ == indices_of(ref_keys(references@), (scope@, name@)),
{
    let ghost k = (scope@, name@);
    let ghost rk = ref_keys(references@);
    let mut r: Vec<usize> = Vec::new();
    let mut i: usize = 0;
    while i < references.len()
        invariant
            i <= references@.len(),
            rscopes@.len() == references@.len(),
            forall|j: int| 0 <= j < rscopes@.len() ==> #[trigger] rscopes@[j]@ == ref_key(references@[j]).0,
            k == (scope@, name@),
            rk == ref_keys(references@),
            r@ == indices_of(rk.take(i as int), k),
        decreases references@.len() - i,
    {
        assert(rk.take(i + 1).drop_last() =~= rk.take(i as int));
        assert(rk.take(i + 1).last() == ref_key(references@[i as int]));
        if rscopes[i] == *scope && references[i].name == *name {
            r.push(i);
        }
        i += 1;
    }
    assert(rk.take(references@.len() as int) =~= rk);
    r
}

/// The read/write class of the references at `idxs`.
fn rw_class_of(references: &[ReferenceInfo], idxs: &Vec<usize>) -> (r: String)
    requires
        forall|j: int| 0 <= j < idxs@.len() ==> #[trigger] idxs@[j] < references@.len(),
    ensures
        r@ == rw_class_spec(references@, idxs@),
{
    let mut w = false;
    let mut rd = false;
    let mut j: usize = 0;
    while j < idxs.len()
        invariant
            j <= idxs@.len(),
            forall|t: int| 0 <= t < idxs@.len() ==> #[trigger] idxs@[t] < references@.len(),
            w == exists|t: int| 0 <= t < j && #[trigger] references@[idxs@[t] as int].kind == RefKind::Lhs,
            rd == exists|t: int|
                0 <= t < j && (#[trigger] references@[idxs@[t] as int].kind == RefKind::Rhs
                    || references@[idxs@[t] as int].kind == RefKind::TypeRef),
        decreases idxs@.len() - j,
    {
        let k = references[idxs[j]].kind;
        if k == RefKind::Lhs {
            w = true;
        } else if k == RefKind::Rhs || k == RefKind::TypeRef {
            rd = true;
        }
        j += 1;
    }
    assert(w == any_kind(references@, idxs@, RefKind::Lhs, RefKind::Lhs));
    assert(rd == any_kind(references@, idxs@, RefKind::Rhs, RefKind::TypeRef));
    if w && rd {
        to_string("read_write")
    } else if w {
        to_string("write_only")
    } else if rd {
        to_string("read_only")
    } else {
        to_string("unused")
    }
}

/// The indices in `indices_of(ks, k)` lie below `ks.len()`.
proof fn lemma_indices_bounded(ks: Seq<SymKey>, k: SymKey)
    ensures
        forall|j: int| 0 <= j < indices_of(ks, k).len() ==> #[trigger] indices_of(ks, k)[j] < ks.len(),
    decreases ks.len(),
{
    if ks.len() > 0 {
        lemma_indices_bounded(ks.drop_last(), k);
        let p = indices_of(ks.drop_last(), k);
        assert forall|j: int| 0 <= j < indices_of(ks, k).len() implies #[trigger] indices_of(ks, k)[j] < ks.len() by {
            if j < p.len() {
                assert(indices_of(ks, k)[j] == p[j]);
            }
        }
    }
}

/// Every key of the table occurs in `ks`.
proof fn lemma_table_keys_occur(ks: Seq<SymKey>)
    ensures
        forall|i: int| 0 <= i < table_keys(ks).len() ==> last_with(ks, #[trigger] table_keys(ks)[i]) >= 0,
    decreases ks.len(),
{
    if ks.len() > 0 {
        let p = table_keys(ks.drop_last());
        lemma_table_keys_occur(ks.drop_last());
        assert forall|i: int| 0 <= i < table_keys(ks).len() implies last_with(ks, #[trigger] table_keys(ks)[i]) >= 0 by {
            let k = table_keys(ks)[i];
            if k != ks.last() {
                assert(k == p[i]);
            }
        }
    }
}

/// The position of the entry with key (`scope`, `name`), if there is one.
fn find_entry(entries: &Vec<SymbolEntry>, scope: &String, name: &String) -> (r: Option<usize>)
    ensures
        r matches Some(p) ==> p < entries@.len() && entries@[p as int].scope@ == scope@ && entries@[p as int].name@
            == name@,
        r is None ==> forall|p: int|
            0 <= p < entries@.len() ==> !(#[trigger] entries@[p].scope@ == scope@ && entries@[p].name@ == name@),
{
    let mut i: usize = 0;
    while i < entries.len()
        invariant
            i <= entries@.len(),
            forall|p: int| 0 <= p < i ==> !(#[trigger] entries@[p].scope@ == scope@ && entries@[p].name@ == name@),
        decreases entries@.len() - i,
    {
        if entries[i].scope == *scope && entries[i].name == *name {
            return Some(i);
        }
        i += 1;
    }
    None
}

/// The symbol table of a file: for each (scope, name) declared, the last declaration of it, the
/// references with the same scope and name, and whether they read it, write it, both or neither.
pub fn build_symbol_table_and_rw_class(declarations: &[DeclInfo], references: &[ReferenceInfo]) -> (r:
    SymbolTable)
    ensures
        is_symbol_table(r, declarations@, references@),
{
    let mut rscopes: Vec<String> = Vec::new();
    let mut i: usize = 0;
    while i < references.len()
        invariant
            i <= references@.len(),
            rscopes@.len() == i,
            forall|j: int| 0 <= j < i ==> #[trigger] rscopes@[j]@ == ref_key(references@[j]).0,
        decreases references@.len() - i,
    {
        rscopes.push(scope_key(references[i].scope.as_slice()));
        i += 1;
    }
    let ghost ds = declarations@;
    let ghost xs = references@;
    let ghost ks = decl_keys(ds);
    let mut entries: Vec<SymbolEntry> = Vec::new();
    let mut di: usize = 0;
    while di < declarations.len()
        invariant
            di <= ds.len(),
            ds == declarations@,
            xs == references@,
            ks == decl_keys(ds),
            rscopes@.len() == references@.len(),
            forall|j: int| 0 <= j < rscopes@.len() ==> #[trigger] rscopes@[j]@ == ref_key(references@[j]).0,
            entries@.len() == table_keys(ks.take(di as int)).len(),
            forall|p: int|
                0 <= p < entries@.len() ==> entry_for(
                    #[trigger] entries@[p],
                    table_keys(ks.take(di as int))[p],
                    ds.take(di as int),
                    xs,
                ),
        decreases ds.len() - di,
    {
        let d = &declarations[di];
        let sk = scope_key(d.scope.as_slice());
        let ghost key = (sk@, d.name@);
        assert(key == decl_key(ds[di as int]));
        let rs = refs_with_key(references, &rscopes, &sk, &d.name);
        proof {
            lemma_indices_bounded(ref_keys(xs), key);
        }
        let cls = rw_class_of(references, &rs);
        let entry = SymbolEntry {
            scope: sk.clone(),
            name: d.name.clone(),
            info: SymbolInfo { decl: d.copy(), refs: rs, rw_class: cls },
        };
        let ghost old_entries = entries@;
        let ghost pk = ks.take(di as int);
        let ghost nk = ks.take(di + 1);
        let ghost pds = ds.take(di as int);
        let ghost nds = ds.take(di + 1);
        assert(nk.drop_last() =~= pk);
        assert(nk.last() == key);
        assert(decl_keys(nds) =~= nk);
        assert(decl_keys(pds) =~= pk);
        assert(decl_keys(nds).drop_last() =~= decl_keys(pds));
        proof {
            lemma_table_keys_distinct(pk);
        }
        match find_entry(&entries, &sk, &d.name) {
            Some(p) => {
                entries.set(p, entry);
                assert(table_keys(pk)[p as int] == key);
                assert(table_keys(pk).contains(key));
                assert(table_keys(nk) == table_keys(pk));
                assert forall|q: int| 0 <= q < entries@.len() implies entry_for(
                    #[trigger] entries@[q],
                    table_keys(nk)[q],
                    nds,
                    xs,
                ) by {
                    let kq = table_keys(nk)[q];
                    if q == p {
                        assert(last_with(decl_keys(nds), kq) == di);
                    } else {
                        assert(kq != key);
                        assert(last_with(decl_keys(nds), kq) == last_with(decl_keys(pds), kq));
                        assert(entry_for(old_entries[q], kq, pds, xs));
                        let lw = last_with(decl_keys(pds), kq);
                        lemma_last_with_range(decl_keys(pds), kq);
                        lemma_table_keys_occur(pk);
                        assert(nds[lw] == pds[lw]);
                    }
                }
            },
            None => {
                entries.push(entry);
                assert(!table_keys(pk).contains(key)) by {
                    if table_keys(pk).contains(key) {
                        let q = choose|q: int| 0 <= q < table_keys(pk).len() && table_keys(pk)[q] == key;
                        assert(entry_for(old_entries[q], key, pds, xs));
                    }
                }
                assert(table_keys(nk) == table_keys(pk).push(key));
                assert forall|q: int| 0 <= q < entries@.len() implies entry_for(
                    #[trigger] entries@[q],
                    table_keys(nk)[q],
                    nds,
                    xs,
                ) by {
                    let kq = table_keys(nk)[q];
                    if q == old_entries.len() {
                        assert(last_with(decl_keys(nds), kq) == di);
                    } else {
                        assert(kq == table_keys(pk)[q]);
                        assert(kq != key);
                        assert(last_with(decl_keys(nds), kq) == last_with(decl_keys(pds), kq));
                        assert(entry_for(old_entries[q], kq, pds, xs));
                        let lw = last_with(decl_keys(pds), kq);
                        lemma_last_with_range(decl_keys(pds), kq);
                        lemma_table_keys_occur(pk);
                        assert(nds[lw] == pds[lw]);
                    }
                }
            },
        }
        di += 1;
    }
    assert(ks.take(ds.len() as int) =~= ks);
    assert(ds.take(ds.len() as int) =~= ds);
    SymbolTable { entries }
}

/// `last_with` is -1 or a valid index holding the key.
proof fn lemma_last_with_range(ks: Seq<SymKey>, k: SymKey)
    ensures
        -1 <= last_with(ks, k) < ks.len(),
        last_with(ks, k) >= 0 ==> ks[last_with(ks, k)] == k,
    decreases ks.len(),
{
    if ks.len() > 0 && ks.last() != k {
        lemma_last_with_range(ks.drop_last(), k);
    }
}

/// No two declarations other than typedefs share a name.
pub open spec fn names_declared_once(decls: Seq<DeclRec>) -> bool {
    forall|i: int, j: int|
        0 <= i < j < decls.len() && decls[i].decl_type != DeclType::Typedef && decls[j].decl_type
            != DeclType::Typedef ==> #[trigger] decls[i].name != #[trigger] decls[j].name
}

/// One step of the walk keeps the declared names apart.
proof fn lemma_step_declares_once(s: ScanState, e: EventRec)
    requires
        names_declared_once(s.decls),
    ensures
        names_declared_once(scan_step(s, e).decls),
{
    let n = scan_step(s, e).decls;
    if n.len() == s.decls.len() + 1 {
        assert forall|i: int, j: int|
            0 <= i < j < n.len() && n[i].decl_type != DeclType::Typedef && n[j].decl_type
                != DeclType::Typedef implies #[trigger] n[i].name != #[trigger] n[j].name by {
            if j == s.decls.len() {
                assert(n[i] == s.decls[i]);
                assert(!declared(s.decls, n[j].name));
            } else {
                assert(n[i] == s.decls[i]);
                assert(n[j] == s.decls[j]);
            }
        }
    } else {
        assert(n == s.decls);
    }
}

/// Law: a walk declares each name at most once, typedefs aside, whatever the events.
pub proof fn law_names_declared_once(evs: Seq<EventRec>)
    ensures
        names_declared_once(scan_events(evs).decls),
    decreases evs.len(),
{
    if evs.len() > 0 {
        law_names_declared_once(evs.drop_last());
        lemma_step_declares_once(scan_events(evs.drop_last()), evs.last());
    }
}

/// Law: a walk records no reference of kind `PortConn`.
pub proof fn law_no_port_connection_refs(evs: Seq<EventRec>)
    ensures
        forall|i: int| 0 <= i < scan_events(evs).refs.len() ==> #[trigger] scan_events(evs).refs[i].kind
            != RefKind::PortConn,
    decreases evs.len(),
{
    if evs.len() > 0 {
        law_no_port_connection_refs(evs.drop_last());
        let s = scan_events(evs.drop_last());
        let n = scan_events(evs).refs;
        assert forall|i: int| 0 <= i < n.len() implies #[trigger] n[i].kind != RefKind::PortConn by {
            if i < s.refs.len() {
                assert(n[i] == s.refs[i]);
            }
        }
    }
}

/// The walk after `evs` and then entering the direction node `dir` and a port identifier
/// `y` at `at` under it.
pub open spec fn walk_port_under(evs: Seq<EventRec>, dir: SvNode, y: Seq<char>, at: usize) -> ScanState {
    scan_events(
        evs + seq![
            EventRec { enter: true, node: dir, ident: None },
            EventRec { enter: true, node: SvNode::PortIdentifier, ident: Some((y, at)) },
        ],
    )
}

/// Law: a port identifier met right inside an `input`, `output` or `inout` declaration is
/// declared, when its name is new, as a variable whose kind is that direction's keyword.
pub proof fn law_port_kind_names_direction(evs: Seq<EventRec>, y: Seq<char>, at: usize)
    requires
        !declared(scan_events(evs).decls, y),
    ensures
        walk_port_under(evs, SvNode::InputDeclaration, y, at).decls == scan_events(evs).decls.push(
            DeclRec { name: y, kind: "input"@, decl_type: DeclType::Var, at },
        ),
        walk_port_under(evs, SvNode::OutputDeclaration, y, at).decls == scan_events(evs).decls.push(
            DeclRec { name: y, kind: "output"@, decl_type: DeclType::Var, at },
        ),
        walk_port_under(evs, SvNode::InoutDeclaration, y, at).decls == scan_events(evs).decls.push(
            DeclRec { name: y, kind: "inout"@, decl_type: DeclType::Var, at },
        ),
{
    let e2 = EventRec { enter: true, node: SvNode::PortIdentifier, ident: Some((y, at)) };
    let s0 = scan_events(evs);
    let dirs = seq![SvNode::InputDeclaration, SvNode::OutputDeclaration, SvNode::InoutDeclaration];
    assert forall|d: int| 0 <= d < 3 implies walk_port_under(evs, #[trigger] dirs[d], y, at).decls
        == s0.decls.push(DeclRec { name: y, kind: port_kind_text(scan_enter(s0, dirs[d], None).flags.port_kind), decl_type: DeclType::Var, at }) by {
        let e1 = EventRec { enter: true, node: dirs[d], ident: None };
        let w = evs + seq![e1, e2];
        assert(w.drop_last() =~= evs.push(e1));
        assert(w.last() == e2);
        assert(evs.push(e1).drop_last() =~= evs);
        assert(evs.push(e1).last() == e1);
        let s1 = scan_events(evs.push(e1));
        assert(s1 == scan_step(s0, e1));
        assert(scan_events(w) == scan_step(s1, e2));
        assert(s1.decls == s0.decls);
        assert(s1.flags.port_kind != PortKind::Unset);
    }
    assert(dirs[0] == SvNode::InputDeclaration);
    assert(dirs[1] == SvNode::OutputDeclaration);
    assert(dirs[2] == SvNode::InoutDeclaration);
}

/// Law: the read/write class of a symbol follows the kinds of its references: a reference on
/// the right-hand side or as a type makes it read (`read_only` or `read_write`), one on the
/// left-hand side makes it written (`write_only` or `read_write`), and it is `unused` only
/// when none of its references reads or writes it.
pub proof fn law_rw_class_follows_reference_kinds(t: SymbolTable, ds: Seq<DeclInfo>, xs: Seq<ReferenceInfo>)
    requires
        is_symbol_table(t, ds, xs),
    ensures
        forall|i: int, p: int|
            0 <= i < t.entries@.len() && 0 <= p < t.entries@[i].info.refs@.len() ==> {
                let k = xs[#[trigger] t.entries@[i].info.refs@[p] as int].kind;
                let c = t.entries@[i].info.rw_class@;
                &&& (k == RefKind::Rhs || k == RefKind::TypeRef) ==> (c == "read_only"@ || c == "read_write"@)
                &&& k == RefKind::Lhs ==> (c == "write_only"@ || c == "read_write"@)
            },
        forall|i: int|
            0 <= i < t.entries@.len() && #[trigger] t.entries@[i].info.rw_class@ == "unused"@ ==> forall|p: int|
                0 <= p < t.entries@[i].info.refs@.len() ==> xs[t.entries@[i].info.refs@[p] as int].kind
                    == RefKind::PortConn,
{
    reveal_strlit("read_only");
    reveal_strlit("read_write");
    reveal_strlit("write_only");
    reveal_strlit("unused");
    assert("unused"@.len() == 6 && "read_only"@.len() == 9 && "read_write"@.len() == 10 && "write_only"@.len() == 10);
    assert("read_write"@[0] == 'r' && "write_only"@[0] == 'w');
    let keys = table_keys(decl_keys(ds));
    assert forall|i: int, p: int|
        0 <= i < t.entries@.len() && 0 <= p < t.entries@[i].info.refs@.len() implies {
            let k = xs[#[trigger] t.entries@[i].info.refs@[p] as int].kind;
            let c = t.entries@[i].info.rw_class@;
            &&& (k == RefKind::Rhs || k == RefKind::TypeRef) ==> (c == "read_only"@ || c == "read_write"@)
            &&& k == RefKind::Lhs ==> (c == "write_only"@ || c == "read_write"@)
        } by {
        assert(entry_for(t.entries@[i], keys[i], ds, xs));
    }
    assert forall|i: int|
        0 <= i < t.entries@.len() && #[trigger] t.entries@[i].info.rw_class@ == "unused"@ implies forall|p: int|
            0 <= p < t.entries@[i].info.refs@.len() ==> xs[t.entries@[i].info.refs@[p] as int].kind
                == RefKind::PortConn by {
        assert(entry_for(t.entries@[i], keys[i], ds, xs));
        let idxs = t.entries@[i].info.refs@;
        assert forall|p: int| 0 <= p < idxs.len() implies xs[idxs[p] as int].kind == RefKind::PortConn by {
            let k = xs[idxs[p] as int].kind;
            if k == RefKind::Lhs {
                assert(any_kind(xs, idxs, RefKind::Lhs, RefKind::Lhs));
            } else if k == RefKind::Rhs || k == RefKind::TypeRef {
                assert(any_kind(xs, idxs, RefKind::Rhs, RefKind::TypeRef));
            }
        }
    }
}

/// Whether one of the references of entry `e` has kind `a` or `b`.
pub open spec fn entry_has_ref_kind(e: SymbolEntry, xs: Seq<ReferenceInfo>, a: RefKind, b: RefKind) -> bool {
    exists|p: int|
        0 <= p < e.info.refs@.len() && (#[trigger] xs[e.info.refs@[p] as int].kind == a || xs[e.info.refs@[p] as int].kind
            == b)
}

/// Law: the read/write class of each symbol is exactly what its references show: `read_write`
/// when one reads it (right-hand side or type use) and one writes it (left-hand side),
/// `read_only` or `write_only` when only one of these holds, and `unused` when neither does.
pub proof fn law_rw_class_exact(t: SymbolTable, ds: Seq<DeclInfo>, xs: Seq<ReferenceInfo>)
    requires
        is_symbol_table(t, ds, xs),
    ensures
        forall|i: int|
            0 <= i < t.entries@.len() ==> {
                let e = #[trigger] t.entries@[i];
                let rd = entry_has_ref_kind(e, xs, RefKind::Rhs, RefKind::TypeRef);
                let wr = entry_has_ref_kind(e, xs, RefKind::Lhs, RefKind::Lhs);
                &&& e.info.rw_class@ == "read_write"@ <==> rd && wr
                &&& e.info.rw_class@ == "read_only"@ <==> rd && !wr
                &&& e.info.rw_class@ == "write_only"@ <==> !rd && wr
                &&& e.info.rw_class@ == "unused"@ <==> !rd && !wr
            },
{
    reveal_strlit("read_only");
    reveal_strlit("read_write");
    reveal_strlit("write_only");
    reveal_strlit("unused");
    assert("unused"@.len() == 6 && "read_only"@.len() == 9 && "read_write"@.len() == 10 && "write_only"@.len() == 10);
    assert("read_write"@[0] == 'r' && "write_only"@[0] == 'w');
    let keys = table_keys(decl_keys(ds));
    assert forall|i: int| 0 <= i < t.entries@.len() implies {
        let e = #[trigger] t.entries@[i];
        let rd = entry_has_ref_kind(e, xs, RefKind::Rhs, RefKind::TypeRef);
        let wr = entry_has_ref_kind(e, xs, RefKind::Lhs, RefKind::Lhs);
        &&& e.info.rw_class@ == "read_write"@ <==> rd && wr
        &&& e.info.rw_class@ == "read_only"@ <==> rd && !wr
        &&& e.info.rw_class@ == "write_only"@ <==> !rd && wr
        &&& e.info.rw_class@ == "unused"@ <==> !rd && !wr
    } by {
        let e = t.entries@[i];
        assert(entry_for(e, keys[i], ds, xs));
        let idxs = e.info.refs@;
        assert(entry_has_ref_kind(e, xs, RefKind::Rhs, RefKind::TypeRef) == any_kind(xs, idxs, RefKind::Rhs, RefKind::TypeRef));
        assert(entry_has_ref_kind(e, xs, RefKind::Lhs, RefKind::Lhs) == any_kind(xs, idxs, RefKind::Lhs, RefKind::Lhs));
    }
}

/// Law: a symbol table holds each (scope, name) once.
pub proof fn law_symbol_table_keys_distinct(t: SymbolTable, ds: Seq<DeclInfo>, xs: Seq<ReferenceInfo>)
    requires
        is_symbol_table(t, ds, xs),
    ensures
        forall|i: int, j: int|
            0 <= i < j < t.entries@.len() ==> (#[trigger] t.entries@[i].scope@, t.entries@[i].name@) != (
                #[trigger] t.entries@[j].scope@,
                t.entries@[j].name@,
            ),
{
    lemma_table_keys_distinct(decl_keys(ds));
    let keys = table_keys(decl_keys(ds));
    assert forall|i: int, j: int| 0 <= i < j < t.entries@.len() implies (
        #[trigger] t.entries@[i].scope@,
        t.entries@[i].name@,
    ) != (#[trigger] t.entries@[j].scope@, t.entries@[j].name@) by {
        assert(entry_for(t.entries@[i], keys[i], ds, xs));
        assert(entry_for(t.entries@[j], keys[j], ds, xs));
    }
}

/// Sets the line and column of each declaration from its byte offset, given the line starts.
pub fn locate_declarations(decls: &mut Vec<DeclInfo>, starts: &[usize])
    requires
        forall|i: int| 0 <= i < old(decls)@.len() ==> #[trigger] old(decls)@[i].byte_begin < usize::MAX,
    ensures
        final(decls)@.len() == old(decls)@.len(),
        forall|i: int|
            0 <= i < old(decls)@.len() ==> {
                let d = #[trigger] final(decls)@[i];
                let o = old(decls)@[i];
                &&& same_decl(d, DeclInfo { line: d.line, col: d.col, ..o })
                &&& is_linecol(starts@, o.byte_begin, (d.line, d.col))
            },
{
    let ghost old_decls = decls@;
    let mut i: usize = 0;
    while i < decls.len()
        invariant
            i <= decls@.len(),
            decls@.len() == old_decls.len(),
            forall|k: int| 0 <= k < old_decls.len() ==> #[trigger] old_decls[k].byte_begin < usize::MAX,
            forall|k: int| i <= k < decls@.len() ==> decls@[k] == old_decls[k],
            forall|k: int|
                0 <= k < i ==> {
                    let d = #[trigger] decls@[k];
                    let o = old_decls[k];
                    &&& same_decl(d, DeclInfo { line: d.line, col: d.col, ..o })
                    &&& is_linecol(starts@, o.byte_begin, (d.line, d.col))
                },
        decreases decls@.len() - i,
    {
        let (ln, col) = linecol_at(starts, decls[i].byte_begin);
        decls[i].line = ln;
        decls[i].col = col;
        i += 1;
    }
}

/// Sets the line and column of each reference from its byte offset, given the line starts.
pub fn locate_references(refs: &mut Vec<ReferenceInfo>, starts: &[usize])
    requires
        forall|i: int| 0 <= i < old(refs)@.len() ==> #[trigger] old(refs)@[i].byte_begin < usize::MAX,
    ensures
        final(refs)@.len() == old(refs)@.len(),
        forall|i: int|
            0 <= i < old(refs)@.len() ==> {
                let x = #[trigger] final(refs)@[i];
                let o = old(refs)@[i];
                &&& x == ReferenceInfo { line: x.line, col: x.col, ..o }
                &&& is_linecol(starts@, o.byte_begin, (x.line, x.col))
            },
{
    let ghost old_refs = refs@;
    let mut i: usize = 0;
    while i < refs.len()
        invariant
            i <= refs@.len(),
            refs@.len() == old_refs.len(),
            forall|k: int| 0 <= k < old_refs.len() ==> #[trigger] old_refs[k].byte_begin < usize::MAX,
            forall|k: int| i <= k < refs@.len() ==> refs@[k] == old_refs[k],
            forall|k: int|
                0 <= k < i ==> {
                    let x = #[trigger] refs@[k];
                    let o = old_refs[k];
                    &&& x == ReferenceInfo { line: x.line, col: x.col, ..o }
                    &&& is_linecol(starts@, o.byte_begin, (x.line, x.col))
                },
        decreases refs@.len() - i,
    {
        let (ln, col) = linecol_at(starts, refs[i].byte_begin);
        refs[i].line = ln;
        refs[i].col = col;
        i += 1;
    }
}

} // verus!
