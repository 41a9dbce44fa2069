//! A flat, serialisable form of the concrete syntax tree: tokens, nodes and kind tables.
//!
//! The tree is handed over as the events of a depth-first walk (see [`CstEvent`]);
//! [`CstBuilder`] numbers nodes and tokens and records each node's token span.
use crate::strings::{
    chars_of, has_prefix, is_ws, starts_with, str_eq, to_string, trim, trim_end_spec, trim_spec, trim_start_spec,
};
use vstd::prelude::*;

verus! {

/// Which parts of the source the representation carries.
#[derive(Clone, Debug)]
pub struct CstIncludeFlags {
    pub text: bool,
    pub tokens: bool,
}

/// One token: its number, kind, byte span and text.
#[derive(Clone, Debug)]
pub struct TokenRec {
    pub id: u32,
    pub kind: u16,
    pub start: u32,
    pub end: u32,
    pub text: String,
}

/// One node: its number, kind, byte span, parent and first and last token.
#[derive(Clone, Copy, Debug)]
pub struct NodeRec {
    pub id: u32,
    pub kind: u16,
    pub start: u32,
    pub end: u32,
    pub parent: Option<u32>,
    pub first_token: u32,
    pub last_token: u32,
}

/// The whole representation of one file.
#[derive(Clone, Debug)]
pub struct CstIr {
    pub schema: u32,
    pub format: String,
    pub sv_parser: String,
    pub file: String,
    pub hash: String,
    pub source_text: String,
    pub line_starts: Vec<u32>,
    pub includes: CstIncludeFlags,
    pub pp_text: Option<String>,
    pub kind_table: Vec<String>,
    /// Each token kind name with its id, in the order the kinds were first seen.
    pub tok_kind_map: Vec<(String, u16)>,
    pub tok_kind_table: Vec<String>,
    pub tokens: Vec<TokenRec>,
    pub nodes: Vec<NodeRec>,
}

/// One event of the walk over the tree.
#[derive(Clone, Debug)]
pub enum CstEvent {
    /// Entering a token: its text, if the tree has it, and its byte offset and length.
    Token { text: Option<String>, offset: usize, len: usize },
    /// Entering a node of the named kind.
    Enter { name: String },
    /// Leaving a node.
    Leave,
}

/// A node whose subtree is being walked.
#[derive(Clone, Copy, Debug)]
pub struct NodeState {
    pub id: u32,
    pub kind: u16,
    pub parent: Option<u32>,
    pub start: Option<u32>,
    pub end: Option<u32>,
    pub first_token: Option<u32>,
    pub last_token: Option<u32>,
}

/// A token as plain values.
pub struct TokModel {
    pub id: u32,
    pub kind: u16,
    pub start: u32,
    pub end: u32,
    pub text: Seq<char>,
}

/// The plain values of a token record.
pub open spec fn tok_model(t: TokenRec) -> TokModel {
    TokModel { id: t.id, kind: t.kind, start: t.start, end: t.end, text: t.text@ }
}

/// The abstract state of the builder.
pub struct CstModel {
    pub kinds: Seq<Seq<char>>,
    pub tok_kinds: Seq<Seq<char>>,
    pub nodes: Seq<NodeRec>,
    pub tokens: Seq<TokModel>,
    pub stack: Seq<NodeState>,
    pub next_id: u32,
}

/// The index of the first occurrence of `name` in `table`, or -1.
pub open spec fn first_index(table: Seq<Seq<char>>, name: Seq<char>) -> int {
    if exists|k: int| 0 <= k < table.len() && #[trigger] table[k] == name {
        choose|k: int|
            0 <= k < table.len() && #[trigger] table[k] == name && forall|j: int| 0 <= j < k ==> table[j] != name
    } else {
        -1
    }
}

/// `table` after interning `name`, and the id of `name`: its first index, cut to 16 bits.
pub open spec fn intern(table: Seq<Seq<char>>, name: Seq<char>) -> (Seq<Seq<char>>, u16) {
    let p = first_index(table, name);
    if p >= 0 {
        (table, p as u16)
    } else {
        (table.push(name), table.len() as u16)
    }
}

/// A walked node after a token at `start..end` numbered `id` was seen below it.
pub open spec fn touch(st: NodeState, start: u32, end: u32, id: u32) -> NodeState {
    NodeState {
        start: if st.start is None { Some(start) } else { st.start },
        end: Some(end),
        first_token: if st.first_token is None { Some(id) } else { st.first_token },
        last_token: Some(id),
        ..st
    }
}

/// The name of the token kind of `text`.
pub open spec fn token_class(text: Seq<char>) -> Seq<char> {
    let t = trim_spec(text);
    let l = ascii_lower(t);
    if t.len() == 0 {
        "ws"@
    } else if t == ".*"@ {
        "conn_wildcard"@
    } else if t == "."@ {
        "dot"@
    } else if t == "("@ {
        "paren_open"@
    } else if t == ")"@ {
        "paren_close"@
    } else if t == ","@ {
        "comma"@
    } else if t == ";"@ {
        "semicolon"@
    } else if t == ":"@ {
        "colon"@
    } else if t == "="@ {
        "op_eq"@
    } else if t == "<="@ {
        "op_le"@
    } else if t == "@"@ {
        "at"@
    } else if l == "always_ff"@ {
        "kw_always_ff"@
    } else if l == "always_comb"@ {
        "kw_always_comb"@
    } else if l == "always_latch"@ {
        "kw_always_latch"@
    } else if l == "begin"@ {
        "kw_begin"@
    } else if l == "end"@ {
        "kw_end"@
    } else if l == "case"@ || l == "casez"@ || l == "casex"@ {
        "kw_case"@
    } else if l == "endcase"@ {
        "kw_endcase"@
    } else if l == "default"@ {
        "kw_default"@
    } else if l == "unique"@ {
        "kw_unique"@
    } else if l == "priority"@ {
        "kw_priority"@
    } else if has_prefix(t, "//"@) {
        "line_comment"@
    } else if has_prefix(t, "/*"@) {
        "block_comment"@
    } else if has_prefix(t, "`"@) {
        "macro_id"@
    } else if forall|i: int| 0 <= i < t.len() ==> is_word_char(#[trigger] t[i]) {
        "ident"@
    } else {
        "symbol"@
    }
}

/// `c` with ASCII upper-case letters made lower-case.
pub open spec fn ascii_lower_char(c: char) -> char {
    if 'A' <= c && c <= 'Z' {
        ((c as u32) + 32) as char
    } else {
        c
    }
}

/// `s` with ASCII upper-case letters made lower-case (what `str::to_ascii_lowercase` returns).
pub open spec fn ascii_lower(s: Seq<char>) -> Seq<char> {
    s.map_values(|c: char| ascii_lower_char(c))
}

/// An ASCII letter or digit, or `_`.
pub open spec fn is_word_char(c: char) -> bool {
    ('a' <= c && c <= 'z') || ('A' <= c && c <= 'Z') || ('0' <= c && c <= '9') || c == '_'
}

/// `s` with ASCII upper-case letters made lower-case.
pub fn to_ascii_lower(s: &str) -> (r: String)
    ensures
        r@ == ascii_lower(s@),
{
    let v = chars_of(s);
    let mut r = String::new();
    let mut i: usize = 0;
    while i < v.len()
        invariant
            i <= v@.len(),
            v@ == s@,
            r@ == ascii_lower(s@.take(i as int)),
        decreases v@.len() - i,
    {
        let c = v[i];
        let d = if 'A' <= c && c <= 'Z' {
            let u: u8 = ((c as u32) + 32) as u8;
            u as char
        } else {
            c
        };
        crate::strings::push_char(&mut r, d);
        assert(ascii_lower(s@.take(i + 1)) =~= ascii_lower(s@.take(i as int)).push(ascii_lower_char(c)));
        i += 1;
    }
    assert(s@.take(s@.len() as int) =~= s@);
    r
}

/// Whether every character of `s` is an ASCII letter, digit or `_`.
fn all_word_chars(s: &str) -> (r: bool)
    ensures
        r == forall|i: int| 0 <= i < s@.len() ==> is_word_char(#[trigger] s@[i]),
{
    let v = chars_of(s);
    let mut i: usize = 0;
    while i < v.len()
        invariant
            i <= v@.len(),
            v@ == s@,
            forall|k: int| 0 <= k < i ==> is_word_char(#[trigger] s@[k]),
        decreases v@.len() - i,
    {
        let c = v[i];
        if !(('a' <= c && c <= 'z') || ('A' <= c && c <= 'Z') || ('0' <= c && c <= '9') || c == '_') {
            assert(!is_word_char(s@[i as int]));
            return false;
        }
        i += 1;
    }
    true
}

/// The name of the token kind of `text`: white space, one of a few punctuation marks and
/// operators, one of a few keywords (in any case), a comment, a macro name, an identifier
/// or another symbol.
pub fn classify_token(text: &str) -> (r: String)
    ensures
        r@ == token_class(text@),
{
    let t = trim(text);
    let ts = t.as_str();
    let l = to_ascii_lower(ts);
    let ls = l.as_str();
    proof {
        reveal_strlit(".*");
        reveal_strlit(".");
        reveal_strlit("(");
        reveal_strlit(")");
        reveal_strlit(",");
        reveal_strlit(";");
        reveal_strlit(":");
        reveal_strlit("=");
        reveal_strlit("<=");
        reveal_strlit("@");
        reveal_strlit("//");
        reveal_strlit("/*");
        reveal_strlit("`");
    }
    if chars_of(ts).len() == 0 {
        return to_string("ws");
    }
    let r = if str_eq(ts, ".*") {
        "conn_wildcard"
    } else if str_eq(ts, ".") {
        "dot"
    } else if str_eq(ts, "(") {
        "paren_open"
    } else if str_eq(ts, ")") {
        "paren_close"
    } else if str_eq(ts, ",") {
        "comma"
    } else if str_eq(ts, ";") {
        "semicolon"
    } else if str_eq(ts, ":") {
        "colon"
    } else if str_eq(ts, "=") {
        "op_eq"
    } else if str_eq(ts, "<=") {
        "op_le"
    } else if str_eq(ts, "@") {
        "at"
    } else if str_eq(ls, "always_ff") {
        "kw_always_ff"
    } else if str_eq(ls, "always_comb") {
        "kw_always_comb"
    } else if str_eq(ls, "always_latch") {
        "kw_always_latch"
    } else if str_eq(ls, "begin") {
        "kw_begin"
    } else if str_eq(ls, "end") {
        "kw_end"
    } else if str_eq(ls, "case") || str_eq(ls, "casez") || str_eq(ls, "casex") {
        "kw_case"
    } else if str_eq(ls, "endcase") {
        "kw_endcase"
    } else if str_eq(ls, "default") {
        "kw_default"
    } else if str_eq(ls, "unique") {
        "kw_unique"
    } else if str_eq(ls, "priority") {
        "kw_priority"
    } else if starts_with(ts, "//") {
        "line_comment"
    } else if starts_with(ts, "/*") {
        "block_comment"
    } else if starts_with(ts, "`") {
        "macro_id"
    } else if all_word_chars(ts) {
        "ident"
    } else {
        "symbol"
    };
    to_string(r)
}

/// An event as plain values.
pub enum CstEventModel {
    Token(Option<Seq<char>>, usize, usize),
    Enter(Seq<char>),
    Leave,
}

/// The plain values of an event.
pub open spec fn cst_event_model(e: CstEvent) -> CstEventModel {
    match e {
        CstEvent::Token { text, offset, len } => CstEventModel::Token(
            match text {
                Some(t) => Some(t@),
                None => None,
            },
            offset,
            len,
        ),
        CstEvent::Enter { name } => CstEventModel::Enter(name@),
        CstEvent::Leave => CstEventModel::Leave,
    }
}

/// The state after one event: a token is numbered, classified and spans every open node;
/// entering a node opens it under the innermost open node; leaving closes the innermost
/// node and records it if a token was seen below it.
pub open spec fn cst_step(m: CstModel, e: CstEventModel) -> CstModel {
    match e {
        CstEventModel::Token(None, _, _) => m,
        CstEventModel::Token(Some(text), off, len) => {
            let (tk, kind) = intern(m.tok_kinds, token_class(text));
            let id = m.tokens.len() as u32;
            let start = off as u32;
            let end = (off + len) as u32;
            CstModel {
                tok_kinds: tk,
                tokens: m.tokens.push(TokModel { id, kind, start, end, text }),
                stack: m.stack.map_values(|st: NodeState| touch(st, start, end, id)),
                ..m
            }
        },
        CstEventModel::Enter(name) => {
            let (ks, kind) = intern(m.kinds, name);
            let parent = if m.stack.len() > 0 {
                Some(m.stack.last().id)
            } else {
                None
            };
            CstModel {
                kinds: ks,
                stack: m.stack.push(
                    NodeState {
                        id: m.next_id,
                        kind,
                        parent,
                        start: None,
                        end: None,
                        first_token: None,
                        last_token: None,
                    },
                ),
                next_id: (m.next_id + 1) as u32,
                ..m
            }
        },
        CstEventModel::Leave => if m.stack.len() == 0 {
            m
        } else {
            let st = m.stack.last();
            let rest = m.stack.drop_last();
            match (st.first_token, st.last_token) {
                (Some(f), Some(l)) => {
                    let start = match st.start {
                        Some(x) => x,
                        None => 0u32,
                    };
                    let end = match st.end {
                        Some(x) => x,
                        None => start,
                    };
                    CstModel {
                        stack: rest,
                        nodes: m.nodes.push(
                            NodeRec { id: st.id, kind: st.kind, start, end, parent: st.parent, first_token: f, last_token: l },
                        ),
                        ..m
                    }
                },
                _ => CstModel { stack: rest, ..m },
            }
        },
    }
}

/// The state at the start of a walk.
pub open spec fn cst_initial() -> CstModel {
    CstModel {
        kinds: Seq::empty(),
        tok_kinds: Seq::empty(),
        nodes: Seq::empty(),
        tokens: Seq::empty(),
        stack: Seq::empty(),
        next_id: 0,
    }
}

/// The state after a sequence of events.
pub open spec fn cst_run(evs: Seq<CstEventModel>) -> CstModel
    decreases evs.len(),
{
    if evs.len() == 0 {
        cst_initial()
    } else {
        cst_step(cst_run(evs.drop_last()), evs.last())
    }
}

/// The character sequences of a list of strings.
pub open spec fn str_seq(v: Seq<String>) -> Seq<Seq<char>> {
    v.map_values(|s: String| s@)
}

/// Builds the flat representation from the events of a walk.
pub struct CstBuilder {
    pub file: String,
    pub sv_parser: String,
    pub line_starts: Vec<u32>,
    pub source_text: String,
    pub pp_text: String,
    pub kind_table: Vec<String>,
    pub tok_kind_table: Vec<String>,
    pub tok_kind_map: Vec<(String, u16)>,
    pub nodes: Vec<NodeRec>,
    pub tokens: Vec<TokenRec>,
    pub stack: Vec<NodeState>,
    pub next_node_id: u32,
}

impl CstBuilder {
    /// The abstract state.
    pub open spec fn model(&self) -> CstModel {
        CstModel {
            kinds: str_seq(self.kind_table@),
            tok_kinds: str_seq(self.tok_kind_table@),
            nodes: self.nodes@,
            tokens: self.tokens@.map_values(|t: TokenRec| tok_model(t)),
            stack: self.stack@,
            next_id: self.next_node_id,
        }
    }

    /// The map of token kinds lists each kind of the table with its index.
    pub open spec fn wf(&self) -> bool {
        &&& self.tok_kind_map@.len() == self.tok_kind_table@.len()
        &&& forall|i: int|
            0 <= i < self.tok_kind_map@.len() ==> (#[trigger] self.tok_kind_map@[i]).0@ == self.tok_kind_table@[i]@
                && self.tok_kind_map@[i].1 == i as u16
    }

    /// A builder for `file`, whose preprocessed text `pp_text` has lines starting at `line_starts`.
    pub fn new(file: &str, sv_parser: &str, line_starts: &[usize], pp_text: &str) -> (r: Self)
        ensures
            r.wf(),
            r.model() == cst_initial(),
            r.file@ == file@,
            r.sv_parser@ == sv_parser@,
            r.source_text@ == pp_text@,
            r.pp_text@ == pp_text@,
            r.line_starts@.len() == line_starts@.len(),
            forall|i: int| 0 <= i < line_starts@.len() ==> #[trigger] r.line_starts@[i] == line_starts@[i] as u32,
    {
        let mut ls: Vec<u32> = Vec::new();
        let mut i: usize = 0;
        while i < line_starts.len()
            invariant
                i <= line_starts@.len(),
                ls@.len() == i,
                forall|k: int| 0 <= k < i ==> #[trigger] ls@[k] == line_starts@[k] as u32,
            decreases line_starts@.len() - i,
        {
            ls.push(line_starts[i] as u32);
            i += 1;
        }
        let r = CstBuilder {
            file: to_string(file),
            sv_parser: to_string(sv_parser),
            line_starts: ls,
            source_text: to_string(pp_text),
            pp_text: to_string(pp_text),
            kind_table: Vec::new(),
            tok_kind_table: Vec::new(),
            tok_kind_map: Vec::new(),
            nodes: Vec::new(),
            tokens: Vec::new(),
            stack: Vec::new(),
            next_node_id: 0,
        };
        assert(r.model().kinds =~= Seq::<Seq<char>>::empty());
        assert(r.model().tok_kinds =~= Seq::<Seq<char>>::empty());
        assert(r.model().tokens =~= Seq::<TokModel>::empty());
        r
    }

    /// The id of node kind `name`, added to the table if it is new.
    pub fn kind_id(&mut self, name: &str) -> (r: u16)
        ensures
            (str_seq(final(self).kind_table@), r) == intern(str_seq(old(self).kind_table@), name@),
            final(self).tok_kind_table == old(self).tok_kind_table,
            final(self).tok_kind_map == old(self).tok_kind_map,
            final(self).nodes == old(self).nodes,
            final(self).tokens == old(self).tokens,
            final(self).stack == old(self).stack,
            final(self).file == old(self).file,
            final(self).sv_parser == old(self).sv_parser,
            final(self).source_text == old(self).source_text,
            final(self).pp_text == old(self).pp_text,
            final(self).line_starts == old(self).line_starts,
            final(self).next_node_id == old(self).next_node_id,
    {
        match find_name(&self.kind_table, name) {
            Some(i) => i as u16,
            None => {
                let id = self.kind_table.len() as u16;
                self.kind_table.push(to_string(name));
                assert(str_seq(self.kind_table@) =~= str_seq(old(self).kind_table@).push(name@));
                id
            },
        }
    }

    /// The id of token kind `name`, added to the table and the map if it is new.
    pub fn tok_kind_id(&mut self, name: &str) -> (r: u16)
        requires
            old(self).wf(),
        ensures
            final(self).wf(),
            (str_seq(final(self).tok_kind_table@), r) == intern(str_seq(old(self).tok_kind_table@), name@),
            final(self).kind_table == old(self).kind_table,
            final(self).nodes == old(self).nodes,
            final(self).tokens == old(self).tokens,
            final(self).stack == old(self).stack,
            final(self).file == old(self).file,
            final(self).sv_parser == old(self).sv_parser,
            final(self).source_text == old(self).source_text,
            final(self).pp_text == old(self).pp_text,
            final(self).line_starts == old(self).line_starts,
            final(self).next_node_id == old(self).next_node_id,
    {
        match find_name(&self.tok_kind_table, name) {
            Some(i) => i as u16,
            None => {
                let id = self.tok_kind_table.len() as u16;
                self.tok_kind_table.push(to_string(name));
                self.tok_kind_map.push((to_string(name), id));
                assert(str_seq(self.tok_kind_table@) =~= str_seq(old(self).tok_kind_table@).push(name@));
                id
            },
        }
    }

    /// Records a token at `offset..offset + len` with `text`, spanning every open node.
    pub fn record_token(&mut self, text: Option<String>, offset: usize, len: usize)
        requires
            old(self).wf(),
            offset + len <= usize::MAX,
        ensures
            final(self).wf(),
            final(self).file == old(self).file,
            final(self).sv_parser == old(self).sv_parser,
            final(self).source_text == old(self).source_text,
            final(self).pp_text == old(self).pp_text,
            final(self).line_starts == old(self).line_starts,
            final(self).model() == cst_step(
                old(self).model(),
                CstEventModel::Token(
                    match text {
                        Some(t) => Some(t@),
                        None => None,
                    },
                    offset,
                    len,
                ),
            ),
    {
        if let Some(text) = text {
            let kind_name = classify_token(text.as_str());
            let kind = self.tok_kind_id(kind_name.as_str());
            let start = offset as u32;
            let end = (offset + len) as u32;
            let id = self.tokens.len() as u32;
            let ghost old_tokens = self.tokens@;
            self.tokens.push(TokenRec { id, kind, start, end, text });
            let mut stack: Vec<NodeState> = Vec::new();
            std::mem::swap(&mut stack, &mut self.stack);
            let ghost old_stack = stack@;
            let mut i: usize = 0;
            while i < stack.len()
                invariant
                    i <= stack@.len(),
                    stack@.len() == old_stack.len(),
                    forall|k: int| 0 <= k < i ==> #[trigger] stack@[k] == touch(old_stack[k], start, end, id),
                    forall|k: int| i <= k < stack@.len() ==> #[trigger] stack@[k] == old_stack[k],
                decreases stack@.len() - i,
            {
                let mut st = stack[i];
                if st.start.is_none() {
                    st.start = Some(start);
                }
                st.end = Some(end);
                if st.first_token.is_none() {
                    st.first_token = Some(id);
                }
                st.last_token = Some(id);
                stack.set(i, st);
                i += 1;
            }
            self.stack = stack;
            assert(self.stack@ =~= old_stack.map_values(|st: NodeState| touch(st, start, end, id)));
            assert(self.tokens@.map_values(|t: TokenRec| tok_model(t)) =~= old_tokens.map_values(
                |t: TokenRec| tok_model(t),
            ).push(tok_model(self.tokens@.last())));
        }
    }

    /// Opens a node of kind `name` under the innermost open node.
    pub fn enter_node(&mut self, name: &str)
        requires
            old(self).wf(),
            old(self).next_node_id < u32::MAX,
        ensures
            final(self).wf(),
            final(self).file == old(self).file,
            final(self).sv_parser == old(self).sv_parser,
            final(self).source_text == old(self).source_text,
            final(self).pp_text == old(self).pp_text,
            final(self).line_starts == old(self).line_starts,
            final(self).model() == cst_step(old(self).model(), CstEventModel::Enter(name@)),
    {
        let kind = self.kind_id(name);
        let parent = if self.stack.len() > 0 {
            Some(self.stack[self.stack.len() - 1].id)
        } else {
            None
        };
        let id = self.next_node_id;
        self.next_node_id = self.next_node_id + 1;
        self.stack.push(
            NodeState { id, kind, parent, start: None, end: None, first_token: None, last_token: None },
        );
    }

    /// Closes the innermost open node, recording it if a token was seen below it.
    pub fn leave_node(&mut self)
        requires
            old(self).wf(),
        ensures
            final(self).wf(),
            final(self).file == old(self).file,
            final(self).sv_parser == old(self).sv_parser,
            final(self).source_text == old(self).source_text,
            final(self).pp_text == old(self).pp_text,
            final(self).line_starts == old(self).line_starts,
            final(self).model() == cst_step(old(self).model(), CstEventModel::Leave),
    {
        if let Some(state) = self.stack.pop() {
            match (state.first_token, state.last_token) {
                (Some(first), Some(last)) => {
                    let start = match state.start {
                        Some(x) => x,
                        None => 0,
                    };
                    let end = match state.end {
                        Some(x) => x,
                        None => start,
                    };
                    self.nodes.push(
                        NodeRec {
                            id: state.id,
                            kind: state.kind,
                            start,
                            end,
                            parent: state.parent,
                            first_token: first,
                            last_token: last,
                        },
                    );
                },
                _ => {},
            }
        }
    }

    /// Handles one event of the walk.
    pub fn step(&mut self, ev: CstEvent)
        requires
            old(self).wf(),
            ev matches CstEvent::Enter { .. } ==> old(self).next_node_id < u32::MAX,
            ev matches CstEvent::Token { offset, len, .. } ==> offset + len <= usize::MAX,
        ensures
            final(self).wf(),
            final(self).file == old(self).file,
            final(self).sv_parser == old(self).sv_parser,
            final(self).source_text == old(self).source_text,
            final(self).pp_text == old(self).pp_text,
            final(self).line_starts == old(self).line_starts,
            final(self).model() == cst_step(old(self).model(), cst_event_model(ev)),
    {
        match ev {
            CstEvent::Token { text, offset, len } => self.record_token(text, offset, len),
            CstEvent::Enter { name } => self.enter_node(name.as_str()),
            CstEvent::Leave => self.leave_node(),
        }
    }

    /// The finished representation: schema 2, JSON format, text and tokens included.
    pub fn finish(self) -> (r: CstIr)
        ensures
            r.schema == 2,
            r.format@ == "json"@,
            r.sv_parser == self.sv_parser,
            r.file == self.file,
            r.hash@.len() == 0,
            r.source_text == self.source_text,
            r.line_starts == self.line_starts,
            r.includes.text && r.includes.tokens,
            r.pp_text == Some(self.pp_text),
            r.kind_table == self.kind_table,
            r.tok_kind_map == self.tok_kind_map,
            r.tok_kind_table == self.tok_kind_table,
            r.tokens == self.tokens,
            r.nodes == self.nodes,
    {
        proof {
            reveal_strlit("json");
        }
        CstIr {
            schema: 2,
            format: to_string("json"),
            sv_parser: self.sv_parser,
            file: self.file,
            hash: String::new(),
            source_text: self.source_text,
            line_starts: self.line_starts,
            includes: CstIncludeFlags { text: true, tokens: true },
            pp_text: Some(self.pp_text),
            kind_table: self.kind_table,
            tok_kind_map: self.tok_kind_map,
            tok_kind_table: self.tok_kind_table,
            tokens: self.tokens,
            nodes: self.nodes,
        }
    }
}

/// The index of the first entry of `table` equal to `name`.
fn find_name(table: &Vec<String>, name: &str) -> (r: Option<usize>)
    ensures
        r matches Some(i) ==> i < table@.len() && first_index(str_seq(table@), name@) == i,
        r is None ==> first_index(str_seq(table@), name@) == -1,
{
    let ghost t = str_seq(table@);
    let mut i: usize = 0;
    while i < table.len()
        invariant
            i <= table@.len(),
            t == str_seq(table@),
            forall|k: int| 0 <= k < i ==> t[k] != name@,
        decreases table@.len() - i,
    {
        if str_eq(table[i].as_str(), name) {
            assert(t[i as int] == name@);
            let ghost c = choose|k: int|
                0 <= k < t.len() && #[trigger] t[k] == name@ && forall|j: int| 0 <= j < k ==> t[j] != name@;
            assert(c == i) by {
                if c < i {
                } else if c > i {
                    assert(t[i as int] != name@);
                }
            }
            return Some(i);
        }
        i += 1;
    }
    None
}

/// The flat representation of a file's tree, built from the events of a walk over it.
pub fn build_cst_ir(events: Vec<CstEvent>, file: &str, sv_parser_ver: &str, line_starts: &[usize], pp_text: &str) -> (r:
    CstIr)
    requires
        events@.len() < u32::MAX,
        forall|i: int|
            0 <= i < events@.len() ==> (#[trigger] events@[i] matches CstEvent::Token { offset, len, .. } ==> offset
                + len <= usize::MAX),
    ensures
        ({
            let m = cst_run(events@.map_values(|e: CstEvent| cst_event_model(e)));
            &&& str_seq(r.kind_table@) == m.kinds
            &&& str_seq(r.tok_kind_table@) == m.tok_kinds
            &&& r.nodes@ == m.nodes
            &&& r.tokens@.map_values(|t: TokenRec| tok_model(t)) == m.tokens
        }),
        r.tok_kind_map@.len() == r.tok_kind_table@.len(),
        forall|i: int|
            0 <= i < r.tok_kind_map@.len() ==> (#[trigger] r.tok_kind_map@[i]).0@ == r.tok_kind_table@[i]@
                && r.tok_kind_map@[i].1 == i as u16,
        r.schema == 2,
        r.format@ == "json"@,
        r.file@ == file@,
        r.sv_parser@ == sv_parser_ver@,
        r.source_text@ == pp_text@,
        r.pp_text matches Some(p) && p@ == pp_text@,
        r.line_starts@.len() == line_starts@.len(),
        forall|i: int| 0 <= i < line_starts@.len() ==> #[trigger] r.line_starts@[i] == line_starts@[i] as u32,
{
    let mut b = CstBuilder::new(file, sv_parser_ver, line_starts, pp_text);
    let ghost evs = events@.map_values(|e: CstEvent| cst_event_model(e));
    let mut i: usize = 0;
    while i < events.len()
        invariant
            i <= events@.len(),
            events@.len() < u32::MAX,
            forall|k: int|
                0 <= k < events@.len() ==> (#[trigger] events@[k] matches CstEvent::Token { offset, len, .. }
                    ==> offset + len <= usize::MAX),
            evs == events@.map_values(|e: CstEvent| cst_event_model(e)),
            b.wf(),
            b.model() == cst_run(evs.take(i as int)),
            b.next_node_id <= i,
            b.file@ == file@,
            b.sv_parser@ == sv_parser_ver@,
            b.source_text@ == pp_text@,
            b.pp_text@ == pp_text@,
            b.line_starts@.len() == line_starts@.len(),
            forall|k: int| 0 <= k < line_starts@.len() ==> #[trigger] b.line_starts@[k] == line_starts@[k] as u32,
        decreases events@.len() - i,
    {
        let ev = events[i].copy();
        assert(evs.take(i + 1).drop_last() =~= evs.take(i as int));
        b.step(ev);
        i += 1;
    }
    assert(evs.take(events@.len() as int) =~= evs);
    b.finish()
}

impl CstEvent {
    /// A copy with the same plain values.
    pub fn copy(&self) -> (r: Self)
        ensures
            cst_event_model(r) == cst_event_model(*self),
            r matches CstEvent::Token { offset, len, .. } ==> self matches CstEvent::Token { offset: o, len: l, .. }
                && o == offset && l == len,
            r matches CstEvent::Enter { .. } <==> self matches CstEvent::Enter { .. },
    {
        match self {
            CstEvent::Token { text, offset, len } => CstEvent::Token {
                text: match text {
                    Some(t) => Some(t.clone()),
                    None => None,
                },
                offset: *offset,
                len: *len,
            },
            CstEvent::Enter { name } => CstEvent::Enter { name: name.clone() },
            CstEvent::Leave => CstEvent::Leave,
        }
    }
}

proof fn lemma_trim_start_head(s: Seq<char>)
    ensures
        trim_start_spec(s).len() > 0 ==> !is_ws(trim_start_spec(s)[0]),
    decreases s.len(),
{
    if s.len() > 0 && is_ws(s[0]) {
        lemma_trim_start_head(s.drop_first());
    }
}

proof fn lemma_trim_end_prefix(s: Seq<char>)
    ensures
        trim_end_spec(s).len() <= s.len(),
        trim_end_spec(s) == s.take(trim_end_spec(s).len() as int),
        trim_end_spec(s).len() > 0 ==> !is_ws(trim_end_spec(s).last()),
    decreases s.len(),
{
    if s.len() > 0 && is_ws(s.last()) {
        lemma_trim_end_prefix(s.drop_last());
        assert(s.drop_last().take(trim_end_spec(s).len() as int) =~= s.take(trim_end_spec(s).len() as int));
    } else {
        assert(s.take(s.len() as int) =~= s);
    }
}

proof fn lemma_trim_idempotent(s: Seq<char>)
    ensures
        trim_spec(trim_spec(s)) == trim_spec(s),
{
    let u = trim_start_spec(s);
    let t = trim_end_spec(u);
    lemma_trim_start_head(s);
    lemma_trim_end_prefix(u);
    if t.len() > 0 {
        assert(t[0] == u[0]);
        assert(trim_start_spec(t) == t);
        assert(trim_end_spec(t) == t);
    } else {
        assert(trim_start_spec(t) == t);
        assert(trim_end_spec(t) == t);
    }
}

proof fn lemma_lower_char_ws(c: char)
    ensures
        is_ws(ascii_lower_char(c)) == is_ws(c),
        is_word_char(ascii_lower_char(c)) == is_word_char(c),
        ascii_lower_char(ascii_lower_char(c)) == ascii_lower_char(c),
        !('a' <= c && c <= 'z') && !('A' <= c && c <= 'Z') ==> ascii_lower_char(c) == c,
        'A' <= c && c <= 'Z' ==> 'a' <= ascii_lower_char(c) && ascii_lower_char(c) <= 'z',
{
}

proof fn lemma_trim_start_lower(s: Seq<char>)
    ensures
        trim_start_spec(ascii_lower(s)) == ascii_lower(trim_start_spec(s)),
    decreases s.len(),
{
    if s.len() > 0 {
        lemma_lower_char_ws(s[0]);
        assert(ascii_lower(s)[0] == ascii_lower_char(s[0]));
        if is_ws(s[0]) {
            assert(ascii_lower(s).drop_first() =~= ascii_lower(s.drop_first()));
            lemma_trim_start_lower(s.drop_first());
        }
    } else {
        assert(ascii_lower(s) =~= s);
    }
}

proof fn lemma_trim_end_lower(s: Seq<char>)
    ensures
        trim_end_spec(ascii_lower(s)) == ascii_lower(trim_end_spec(s)),
    decreases s.len(),
{
    if s.len() > 0 {
        lemma_lower_char_ws(s.last());
        assert(ascii_lower(s).last() == ascii_lower_char(s.last()));
        if is_ws(s.last()) {
            assert(ascii_lower(s).drop_last() =~= ascii_lower(s.drop_last()));
            lemma_trim_end_lower(s.drop_last());
        }
    } else {
        assert(ascii_lower(s) =~= s);
    }
}

/// Lower-casing `t` gives a text equal to `p` only if `t` is `p`, when `p` holds no letter.
proof fn lemma_lower_eq_no_letters(t: Seq<char>, p: Seq<char>)
    requires
        forall|i: int| 0 <= i < p.len() ==> !('a' <= #[trigger] p[i] && p[i] <= 'z') && !('A' <= p[i] && p[i] <= 'Z'),
    ensures
        (ascii_lower(t) == p) == (t == p),
        has_prefix(ascii_lower(t), p) == has_prefix(t, p),
{
    if t.len() == p.len() {
        if ascii_lower(t) == p {
            assert forall|i: int| 0 <= i < t.len() implies t[i] == p[i] by {
                lemma_lower_char_ws(t[i]);
                assert(ascii_lower(t)[i] == ascii_lower_char(t[i]));
            }
            assert(t =~= p);
        }
        if t == p {
            assert forall|i: int| 0 <= i < t.len() implies ascii_lower(t)[i] == p[i] by {
                lemma_lower_char_ws(t[i]);
            }
            assert(ascii_lower(t) =~= p);
        }
    }
    if p.len() <= t.len() {
        assert(ascii_lower(t).take(p.len() as int) =~= ascii_lower(t.take(p.len() as int)));
        if t.take(p.len() as int).len() == p.len() {
            let q = t.take(p.len() as int);
            if ascii_lower(q) == p {
                assert forall|i: int| 0 <= i < q.len() implies q[i] == p[i] by {
                    lemma_lower_char_ws(q[i]);
                    assert(ascii_lower(q)[i] == ascii_lower_char(q[i]));
                }
                assert(q =~= p);
            }
            if q == p {
                assert forall|i: int| 0 <= i < q.len() implies ascii_lower(q)[i] == p[i] by {
                    lemma_lower_char_ws(q[i]);
                }
                assert(ascii_lower(q) =~= p);
            }
        }
    }
}

/// The class of a token does not change when white space around it is trimmed.
pub proof fn law_token_class_trim(text: Seq<char>)
    ensures
        token_class(trim_spec(text)) == token_class(text),
{
    lemma_trim_idempotent(text);
}

/// The class of a token does not change when its ASCII letters are lower-cased.
pub proof fn law_token_class_lower(text: Seq<char>)
    ensures
        token_class(ascii_lower(text)) == token_class(text),
{
    let t = trim_spec(text);
    lemma_trim_start_lower(text);
    lemma_trim_end_lower(trim_start_spec(text));
    assert(trim_spec(ascii_lower(text)) == ascii_lower(t));
    let lt = ascii_lower(t);
    assert(ascii_lower(lt) =~= lt) by {
        assert forall|i: int| 0 <= i < lt.len() implies ascii_lower(lt)[i] == lt[i] by {
            lemma_lower_char_ws(t[i]);
        }
    }
    reveal_strlit(".*");
    reveal_strlit(".");
    reveal_strlit("(");
    reveal_strlit(")");
    reveal_strlit(",");
    reveal_strlit(";");
    reveal_strlit(":");
    reveal_strlit("=");
    reveal_strlit("<=");
    reveal_strlit("@");
    reveal_strlit("//");
    reveal_strlit("/*");
    reveal_strlit("`");
    lemma_lower_eq_no_letters(t, ".*"@);
    lemma_lower_eq_no_letters(t, "."@);
    lemma_lower_eq_no_letters(t, "("@);
    lemma_lower_eq_no_letters(t, ")"@);
    lemma_lower_eq_no_letters(t, ","@);
    lemma_lower_eq_no_letters(t, ";"@);
    lemma_lower_eq_no_letters(t, ":"@);
    lemma_lower_eq_no_letters(t, "="@);
    lemma_lower_eq_no_letters(t, "<="@);
    lemma_lower_eq_no_letters(t, "@"@);
    lemma_lower_eq_no_letters(t, "//"@);
    lemma_lower_eq_no_letters(t, "/*"@);
    lemma_lower_eq_no_letters(t, "`"@);
    assert(lt.len() == t.len());
    if forall|i: int| 0 <= i < lt.len() ==> is_word_char(#[trigger] lt[i]) {
        assert forall|i: int| 0 <= i < t.len() implies is_word_char(#[trigger] t[i]) by {
            lemma_lower_char_ws(t[i]);
            assert(lt[i] == ascii_lower_char(t[i]));
            assert(is_word_char(lt[i]));
        }
    }
    if forall|i: int| 0 <= i < t.len() ==> is_word_char(#[trigger] t[i]) {
        assert forall|i: int| 0 <= i < lt.len() implies is_word_char(#[trigger] lt[i]) by {
            lemma_lower_char_ws(t[i]);
            assert(lt[i] == ascii_lower_char(t[i]));
            assert(is_word_char(t[i]));
        }
    }
}

/// The lengths and some characters of the class names, keywords and punctuation that
/// `token_class` compares against: enough to tell each from the others.
proof fn lemma_class_literals()
    ensures
        "ws"@.len() == 2,
        "ws"@[0] == 'w',
        "conn_wildcard"@.len() == 13,
        "conn_wildcard"@[0] == 'c',
        "conn_wildcard"@[3] == 'n',
        "dot"@.len() == 3,
        "dot"@[0] == 'd',
        "paren_open"@.len() == 10,
        "paren_open"@[0] == 'p',
        "paren_open"@[3] == 'e',
        "paren_close"@.len() == 11,
        "paren_close"@[0] == 'p',
        "paren_close"@[3] == 'e',
        "comma"@.len() == 5,
        "comma"@[0] == 'c',
        "comma"@[3] == 'm',
        "semicolon"@.len() == 9,
        "semicolon"@[0] == 's',
        "semicolon"@[3] == 'i',
        "colon"@.len() == 5,
        "colon"@[0] == 'c',
        "colon"@[3] == 'o',
        "op_eq"@.len() == 5,
        "op_eq"@[0] == 'o',
        "op_eq"@[3] == 'e',
        "op_le"@.len() == 5,
        "op_le"@[0] == 'o',
        "op_le"@[3] == 'l',
        "at"@.len() == 2,
        "at"@[0] == 'a',
        "kw_always_ff"@.len() == 12,
        "kw_always_ff"@[0] == 'k',
        "kw_always_ff"@[3] == 'a',
        "kw_always_comb"@.len() == 14,
        "kw_always_comb"@[0] == 'k',
        "kw_always_comb"@[3] == 'a',
        "kw_always_latch"@.len() == 15,
        "kw_always_latch"@[0] == 'k',
        "kw_always_latch"@[3] == 'a',
        "kw_begin"@.len() == 8,
        "kw_begin"@[0] == 'k',
        "kw_begin"@[3] == 'b',
        "kw_end"@.len() == 6,
        "kw_end"@[0] == 'k',
        "kw_end"@[3] == 'e',
        "kw_case"@.len() == 7,
        "kw_case"@[0] == 'k',
        "kw_case"@[3] == 'c',
        "kw_endcase"@.len() == 10,
        "kw_endcase"@[0] == 'k',
        "kw_endcase"@[3] == 'e',
        "kw_default"@.len() == 10,
        "kw_default"@[0] == 'k',
        "kw_default"@[3] == 'd',
        "kw_unique"@.len() == 9,
        "kw_unique"@[0] == 'k',
        "kw_unique"@[3] == 'u',
        "kw_priority"@.len() == 11,
        "kw_priority"@[0] == 'k',
        "kw_priority"@[3] == 'p',
        "line_comment"@.len() == 12,
        "line_comment"@[0] == 'l',
        "line_comment"@[3] == 'e',
        "block_comment"@.len() == 13,
        "block_comment"@[0] == 'b',
        "block_comment"@[3] == 'c',
        "macro_id"@.len() == 8,
        "macro_id"@[0] == 'm',
        "macro_id"@[3] == 'r',
        "ident"@.len() == 5,
        "ident"@[0] == 'i',
        "ident"@[3] == 'n',
        "symbol"@.len() == 6,
        "symbol"@[0] == 's',
        "symbol"@[3] == 'b',
        "always_ff"@.len() == 9,
        "always_ff"@[0] == 'a',
        "always_ff"@[4] == 'y',
        "always_comb"@.len() == 11,
        "always_comb"@[0] == 'a',
        "always_comb"@[4] == 'y',
        "always_latch"@.len() == 12,
        "always_latch"@[0] == 'a',
        "always_latch"@[4] == 'y',
        "begin"@.len() == 5,
        "begin"@[0] == 'b',
        "begin"@[4] == 'n',
        "end"@.len() == 3,
        "end"@[0] == 'e',
        "case"@.len() == 4,
        "case"@[0] == 'c',
        "casez"@.len() == 5,
        "casez"@[0] == 'c',
        "casez"@[4] == 'z',
        "casex"@.len() == 5,
        "casex"@[0] == 'c',
        "casex"@[4] == 'x',
        "endcase"@.len() == 7,
        "endcase"@[0] == 'e',
        "endcase"@[4] == 'a',
        "default"@.len() == 7,
        "default"@[0] == 'd',
        "default"@[4] == 'u',
        "unique"@.len() == 6,
        "unique"@[0] == 'u',
        "unique"@[4] == 'u',
        "priority"@.len() == 8,
        "priority"@[0] == 'p',
        "priority"@[4] == 'r',
        ".*"@.len() == 2,
        ".*"@[0] == '.',
        ".*"@[1] == '*',
        "."@.len() == 1,
        "."@[0] == '.',
        "("@.len() == 1,
        "("@[0] == '(',
        ")"@.len() == 1,
        ")"@[0] == ')',
        ","@.len() == 1,
        ","@[0] == ',',
        ";"@.len() == 1,
        ";"@[0] == ';',
        ":"@.len() == 1,
        ":"@[0] == ':',
        "="@.len() == 1,
        "="@[0] == '=',
        "<="@.len() == 2,
        "<="@[0] == '<',
        "<="@[1] == '=',
        "@"@.len() == 1,
        "@"@[0] == '@',
        "//"@.len() == 2,
        "//"@[0] == '/',
        "//"@[1] == '/',
        "/*"@.len() == 2,
        "/*"@[0] == '/',
        "/*"@[1] == '*',
        "`"@.len() == 1,
        "`"@[0] == '`',
{
    reveal_strlit("ws");
    reveal_strlit("conn_wildcard");
    reveal_strlit("dot");
    reveal_strlit("paren_open");
    reveal_strlit("paren_close");
    reveal_strlit("comma");
    reveal_strlit("semicolon");
    reveal_strlit("colon");
    reveal_strlit("op_eq");
    reveal_strlit("op_le");
    reveal_strlit("at");
    reveal_strlit("kw_always_ff");
    reveal_strlit("kw_always_comb");
    reveal_strlit("kw_always_latch");
    reveal_strlit("kw_begin");
    reveal_strlit("kw_end");
    reveal_strlit("kw_case");
    reveal_strlit("kw_endcase");
    reveal_strlit("kw_default");
    reveal_strlit("kw_unique");
    reveal_strlit("kw_priority");
    reveal_strlit("line_comment");
    reveal_strlit("block_comment");
    reveal_strlit("macro_id");
    reveal_strlit("ident");
    reveal_strlit("symbol");
    reveal_strlit("always_ff");
    reveal_strlit("always_comb");
    reveal_strlit("always_latch");
    reveal_strlit("begin");
    reveal_strlit("end");
    reveal_strlit("case");
    reveal_strlit("casez");
    reveal_strlit("casex");
    reveal_strlit("endcase");
    reveal_strlit("default");
    reveal_strlit("unique");
    reveal_strlit("priority");
    reveal_strlit(".*");
    reveal_strlit(".");
    reveal_strlit("(");
    reveal_strlit(")");
    reveal_strlit(",");
    reveal_strlit(";");
    reveal_strlit(":");
    reveal_strlit("=");
    reveal_strlit("<=");
    reveal_strlit("@");
    reveal_strlit("//");
    reveal_strlit("/*");
    reveal_strlit("`");
}

/// Each listed keyword, in any case and with any white space around it, has a class of its
/// own: a token is in a keyword class exactly when its trimmed, lower-cased text is that
/// keyword (`case`, `casez` and `casex` share `kw_case`).
pub proof fn law_keyword_classes(text: Seq<char>)
    ensures
        ({
            let l = ascii_lower(trim_spec(text));
            let c = token_class(text);
            &&& (c == "kw_always_ff"@) == (l == "always_ff"@)
            &&& (c == "kw_always_comb"@) == (l == "always_comb"@)
            &&& (c == "kw_always_latch"@) == (l == "always_latch"@)
            &&& (c == "kw_begin"@) == (l == "begin"@)
            &&& (c == "kw_end"@) == (l == "end"@)
            &&& (c == "kw_case"@) == (l == "case"@ || l == "casez"@ || l == "casex"@)
            &&& (c == "kw_endcase"@) == (l == "endcase"@)
            &&& (c == "kw_default"@) == (l == "default"@)
            &&& (c == "kw_unique"@) == (l == "unique"@)
            &&& (c == "kw_priority"@) == (l == "priority"@)
        }),
{
    let t = trim_spec(text);
    let l = ascii_lower(t);
    lemma_class_literals();
    lemma_lower_eq_no_letters(t, ".*"@);
    lemma_lower_eq_no_letters(t, "."@);
    lemma_lower_eq_no_letters(t, "("@);
    lemma_lower_eq_no_letters(t, ")"@);
    lemma_lower_eq_no_letters(t, ","@);
    lemma_lower_eq_no_letters(t, ";"@);
    lemma_lower_eq_no_letters(t, ":"@);
    lemma_lower_eq_no_letters(t, "="@);
    lemma_lower_eq_no_letters(t, "<="@);
    lemma_lower_eq_no_letters(t, "@"@);
    assert(l.len() == t.len());
    let c = token_class(text);
    assert((c == "kw_always_ff"@) == (l == "always_ff"@));
    assert((c == "kw_always_comb"@) == (l == "always_comb"@));
    assert((c == "kw_always_latch"@) == (l == "always_latch"@));
    assert((c == "kw_begin"@) == (l == "begin"@));
    assert((c == "kw_end"@) == (l == "end"@));
    assert((c == "kw_case"@) == (l == "case"@ || l == "casez"@ || l == "casex"@));
    assert((c == "kw_endcase"@) == (l == "endcase"@));
    assert((c == "kw_default"@) == (l == "default"@));
    assert((c == "kw_unique"@) == (l == "unique"@));
    assert((c == "kw_priority"@) == (l == "priority"@));
}

/// Whether `l` is one of the keywords `token_class` names a class for.
pub open spec fn is_class_keyword(l: Seq<char>) -> bool {
    ||| l == "always_ff"@ ||| l == "always_comb"@ ||| l == "always_latch"@ ||| l == "begin"@
    ||| l == "end"@ ||| l == "case"@ ||| l == "casez"@ ||| l == "casex"@ ||| l == "endcase"@
    ||| l == "default"@ ||| l == "unique"@ ||| l == "priority"@
}

/// The classes that are not keywords, each by the trimmed text `t` of the token: white space
/// when nothing is left, each punctuation mark or operator by its exact text, comments and
/// macro names by how they begin, identifiers when made of ASCII letters, digits and `_`
/// (keywords aside), and `symbol` for anything else.
pub proof fn law_other_token_classes(text: Seq<char>)
    ensures
        ({
            let t = trim_spec(text);
            let c = token_class(text);
            let word = forall|i: int| 0 <= i < t.len() ==> is_word_char(#[trigger] t[i]);
            &&& (c == "ws"@) == (t.len() == 0)
            &&& (c == "conn_wildcard"@) == (t == ".*"@)
            &&& (c == "dot"@) == (t == "."@)
            &&& (c == "paren_open"@) == (t == "("@)
            &&& (c == "paren_close"@) == (t == ")"@)
            &&& (c == "comma"@) == (t == ","@)
            &&& (c == "semicolon"@) == (t == ";"@)
            &&& (c == "colon"@) == (t == ":"@)
            &&& (c == "op_eq"@) == (t == "="@)
            &&& (c == "op_le"@) == (t == "<="@)
            &&& (c == "at"@) == (t == "@"@)
            &&& (c == "line_comment"@) == has_prefix(t, "//"@)
            &&& (c == "block_comment"@) == has_prefix(t, "/*"@)
            &&& (c == "macro_id"@) == has_prefix(t, "`"@)
            &&& (c == "ident"@) == (t.len() > 0 && word && !is_class_keyword(ascii_lower(t)))
        }),
{
    let t = trim_spec(text);
    let l = ascii_lower(t);
    lemma_class_literals();
    lemma_lower_eq_no_letters(t, ".*"@);
    lemma_lower_eq_no_letters(t, "."@);
    lemma_lower_eq_no_letters(t, "("@);
    lemma_lower_eq_no_letters(t, ")"@);
    lemma_lower_eq_no_letters(t, ","@);
    lemma_lower_eq_no_letters(t, ";"@);
    lemma_lower_eq_no_letters(t, ":"@);
    lemma_lower_eq_no_letters(t, "="@);
    lemma_lower_eq_no_letters(t, "<="@);
    lemma_lower_eq_no_letters(t, "@"@);
    lemma_lower_eq_no_letters(t, "//"@);
    lemma_lower_eq_no_letters(t, "/*"@);
    lemma_lower_eq_no_letters(t, "`"@);
    assert(l.len() == t.len());
    let c = token_class(text);
    let word = forall|i: int| 0 <= i < t.len() ==> is_word_char(#[trigger] t[i]);
    // a text that begins with punctuation is no keyword and no word
    if has_prefix(t, "//"@) || has_prefix(t, "/*"@) || has_prefix(t, "`"@) {
        assert(t.take(1)[0] == t[0]);
        assert(!is_word_char(t[0]));
        lemma_lower_char_ws(t[0]);
        assert(l[0] == ascii_lower_char(t[0]));
        assert(l[0] == t[0]);
        assert(!is_class_keyword(l));
    }
    // a word is no punctuation mark
    if t.len() > 0 && word {
        assert(is_word_char(t[0]));
        assert(t != ".*"@ && t != "."@ && t != "("@ && t != ")"@ && t != ","@ && t != ";"@ && t != ":"@);
        assert(t != "="@ && t != "<="@ && t != "@"@);
        assert(!has_prefix(t, "//"@) && !has_prefix(t, "/*"@) && !has_prefix(t, "`"@)) by {
            assert(t.take(1)[0] == t[0]);
            if t.len() >= 2 {
                assert(t.take(2)[0] == t[0]);
            }
        }
    }
    assert((c == "ws"@) == (t.len() == 0));
    assert((c == "conn_wildcard"@) == (t == ".*"@));
    assert((c == "dot"@) == (t == "."@));
    assert((c == "paren_open"@) == (t == "("@));
    assert((c == "paren_close"@) == (t == ")"@));
    assert((c == "comma"@) == (t == ","@));
    assert((c == "semicolon"@) == (t == ";"@));
    assert((c == "colon"@) == (t == ":"@));
    assert((c == "op_eq"@) == (t == "="@));
    assert((c == "op_le"@) == (t == "<="@));
    assert((c == "at"@) == (t == "@"@));
    assert((c == "line_comment"@) == has_prefix(t, "//"@));
    assert((c == "block_comment"@) == has_prefix(t, "/*"@));
    assert((c == "macro_id"@) == has_prefix(t, "`"@));
}

/// Whether `n` is one of the names that `classify_token` gives.
pub open spec fn is_token_class_name(n: Seq<char>) -> bool {
    ||| n == "ws"@ ||| n == "conn_wildcard"@ ||| n == "dot"@ ||| n == "paren_open"@
    ||| n == "paren_close"@ ||| n == "comma"@ ||| n == "semicolon"@ ||| n == "colon"@
    ||| n == "op_eq"@ ||| n == "op_le"@ ||| n == "at"@ ||| n == "kw_always_ff"@
    ||| n == "kw_always_comb"@ ||| n == "kw_always_latch"@ ||| n == "kw_begin"@
    ||| n == "kw_end"@ ||| n == "kw_case"@ ||| n == "kw_endcase"@ ||| n == "kw_default"@
    ||| n == "kw_unique"@ ||| n == "kw_priority"@ ||| n == "line_comment"@
    ||| n == "block_comment"@ ||| n == "macro_id"@ ||| n == "ident"@ ||| n == "symbol"@
}

/// Every token falls in one of the listed classes.
pub proof fn law_token_class_closed(text: Seq<char>)
    ensures
        is_token_class_name(token_class(text)),
{
}

/// No name occurs twice in `table`.
pub open spec fn names_distinct(table: Seq<Seq<char>>) -> bool {
    forall|i: int, j: int| 0 <= i < j < table.len() ==> table[i] != table[j]
}

/// In a table without repeated names, the first index of a name is the index it is at.
pub proof fn law_first_index_of_distinct(table: Seq<Seq<char>>, name: Seq<char>, i: int)
    requires
        names_distinct(table),
        0 <= i < table.len(),
    ensures
        first_index(table, name) == i <==> table[i] == name,
{
    if table[i] == name {
        let k = first_index(table, name);
        assert(0 <= k < table.len() && table[k] == name);
        if k != i {
            if k < i {
                assert(table[k] != table[i]);
            } else {
                assert(table[i] != table[k]);
            }
        }
    }
}

/// Interning a name into a table of at most 65536 names without repeats: the table stays
/// without repeats and holds the name at the id returned; a known name keeps the table and
/// gets its index, a new one is appended and gets the old length; and interning the same
/// name again returns the same id and changes nothing.
pub proof fn law_intern(table: Seq<Seq<char>>, name: Seq<char>)
    requires
        names_distinct(table),
        table.len() < 65536,
    ensures
        names_distinct(intern(table, name).0),
        intern(table, name).0[intern(table, name).1 as int] == name,
        table.contains(name) ==> intern(table, name).0 == table && table[intern(table, name).1 as int] == name,
        !table.contains(name) ==> intern(table, name).0 == table.push(name) && intern(table, name).1 == table.len(),
        intern(intern(table, name).0, name) == intern(table, name),
{
    let (t2, id) = intern(table, name);
    if table.contains(name) {
        let k = choose|k: int| 0 <= k < table.len() && table[k] == name;
        assert(table[k] == name);
        law_first_index_of_distinct(table, name, k);
    } else {
        assert(first_index(table, name) == -1) by {
            if exists|k: int| 0 <= k < table.len() && #[trigger] table[k] == name {
                let k = choose|k: int| 0 <= k < table.len() && #[trigger] table[k] == name;
                assert(table.contains(name));
            }
        }
        assert(t2 == table.push(name));
        assert(names_distinct(t2)) by {
            assert forall|i: int, j: int| 0 <= i < j < t2.len() implies t2[i] != t2[j] by {
                if j == table.len() {
                    assert(t2[i] == table[i]);
                    if table[i] == name {
                        assert(table.contains(name));
                    }
                }
            }
        }
        law_first_index_of_distinct(t2, name, table.len() as int);
    }
}

/// Law: tokens are numbered in the order they are seen, from 0.
pub proof fn law_token_ids_are_positions(evs: Seq<CstEventModel>)
    requires
        evs.len() < u32::MAX,
    ensures
        forall|i: int| 0 <= i < cst_run(evs).tokens.len() ==> #[trigger] cst_run(evs).tokens[i].id == i,
        cst_run(evs).tokens.len() <= evs.len(),
    decreases evs.len(),
{
    if evs.len() > 0 {
        law_token_ids_are_positions(evs.drop_last());
        let m = cst_run(evs.drop_last());
        let n = cst_run(evs).tokens;
        assert forall|i: int| 0 <= i < n.len() implies #[trigger] n[i].id == i by {
            if i < m.tokens.len() {
                assert(n[i] == m.tokens[i]);
            }
        }
    }
}

} // verus!
