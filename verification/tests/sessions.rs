//! Sessions at work on a small in-memory stand-in for libfyaml.

use std::cmp::Ordering;
use std::collections::{BTreeMap, BTreeSet, VecDeque};
use std::rc::Rc;

use fyaml::call::{Call, Reply, Session, Step};
use fyaml::document::{Document, InputOwnership, ParseOwned};
use fyaml::emitter::{events_of, EmitEvent, EmitMode, Emitter, Toggle};
use fyaml::error::{Error, ParseError};
use fyaml::handle::RawNodeHandle;
use fyaml::node::{NodeStyle, NodeType};
use fyaml::node_ref::{NodeRef, Span};
use fyaml::parser::{CloseParser, DocumentIterator, FyParser};
use fyaml::sort::comparator_code;
use fyaml::text::emitted_text;
use fyaml::write_type::WriteType;

// ---------------------------------------------------------------------------
// A reader for a small part of YAML
// ---------------------------------------------------------------------------

const FLOW: i32 = 0;
const BLOCK: i32 = 1;
const PLAIN: i32 = 2;
const SINGLE: i32 = 3;
const DOUBLE: i32 = 4;
const LITERAL: i32 = 5;

#[derive(Clone, Debug)]
struct Member {
    key: Tree,
    value: Tree,
    lead: Vec<String>,
    tail: Option<String>,
}

#[derive(Clone, Debug)]
enum Tree {
    Scalar(String, i32),
    Sequence(Vec<Tree>, i32),
    Mapping(Vec<Member>, i32),
}

type Fault = (String, u32, u32);

#[derive(Clone)]
struct Line {
    number: u32,
    indent: usize,
    content: String,
    comment: Option<String>,
    raw: String,
}

struct Reader {
    lines: Vec<Line>,
    at: usize,
}

fn split_comment(text: &str) -> (String, Option<String>) {
    let mut quote: Option<char> = None;
    let mut before = ' ';
    for (i, c) in text.char_indices() {
        match quote {
            Some(q) => {
                if c == q {
                    quote = None;
                }
            }
            None => {
                if c == '\'' || c == '"' {
                    quote = Some(c);
                } else if c == '#' && before == ' ' {
                    return (text[..i].trim_end().to_string(), Some(text[i..].to_string()));
                }
            }
        }
        before = c;
    }
    (text.trim_end().to_string(), None)
}

fn find_colon(text: &str) -> Option<usize> {
    let mut quote: Option<char> = None;
    let mut depth = 0;
    let chars: Vec<(usize, char)> = text.char_indices().collect();
    for k in 0..chars.len() {
        let (i, c) = chars[k];
        match quote {
            Some(q) => {
                if c == q {
                    quote = None;
                }
            }
            None => match c {
                '\'' | '"' => quote = Some(c),
                '[' | '{' => depth += 1,
                ']' | '}' => depth -= 1,
                ':' => {
                    let last = k + 1 == chars.len() || chars[k + 1].1 == ' ';
                    if depth == 0 && last {
                        return Some(i);
                    }
                }
                _ => {}
            },
        }
    }
    None
}

fn scalar(text: &str) -> Tree {
    let n = text.len();
    if n >= 2 && text.starts_with('\'') && text.ends_with('\'') {
        Tree::Scalar(text[1..n - 1].replace("''", "'"), SINGLE)
    } else if n >= 2 && text.starts_with('"') && text.ends_with('"') {
        Tree::Scalar(text[1..n - 1].replace("\\\"", "\""), DOUBLE)
    } else {
        Tree::Scalar(text.to_string(), PLAIN)
    }
}

fn flow(chars: &[char], at: &mut usize, number: u32) -> Result<Tree, Fault> {
    let blank = |chars: &[char], at: &mut usize| {
        while *at < chars.len() && chars[*at] == ' ' {
            *at += 1;
        }
    };
    blank(chars, at);
    if *at >= chars.len() {
        return Err(("did not find expected node".to_string(), number, *at as u32 + 1));
    }
    let open = chars[*at];
    if open == '[' || open == '{' {
        let close = if open == '[' { ']' } else { '}' };
        *at += 1;
        let mut items = Vec::new();
        let mut members = Vec::new();
        loop {
            blank(chars, at);
            if *at >= chars.len() {
                return Err((
                    "did not find expected ',' or closing bracket".to_string(),
                    number,
                    *at as u32 + 1,
                ));
            }
            if chars[*at] == close {
                *at += 1;
                return Ok(if open == '[' {
                    Tree::Sequence(items, FLOW)
                } else {
                    Tree::Mapping(members, FLOW)
                });
            }
            if chars[*at] == ',' {
                *at += 1;
                continue;
            }
            let first = flow(chars, at, number)?;
            if open == '{' {
                blank(chars, at);
                if *at >= chars.len() || chars[*at] != ':' {
                    return Err(("did not find expected ':'".to_string(), number, *at as u32 + 1));
                }
                *at += 1;
                let value = flow(chars, at, number)?;
                members.push(Member { key: first, value, lead: Vec::new(), tail: None });
            } else {
                items.push(first);
            }
        }
    }
    let start = *at;
    if open == '\'' || open == '"' {
        *at += 1;
        while *at < chars.len() && chars[*at] != open {
            *at += 1;
        }
        *at += 1;
    } else {
        while *at < chars.len() && !matches!(chars[*at], ',' | ']' | '}' | ':') {
            *at += 1;
        }
    }
    let text: String = chars[start..(*at).min(chars.len())].iter().collect();
    Ok(scalar(text.trim()))
}

fn inline(text: &str, number: u32) -> Result<Tree, Fault> {
    if text.starts_with('[') || text.starts_with('{') {
        let chars: Vec<char> = text.chars().collect();
        let mut at = 0;
        flow(&chars, &mut at, number)
    } else {
        Ok(scalar(text))
    }
}

impl Reader {
    fn new(text: &str) -> Reader {
        let mut lines = Vec::new();
        for (i, raw) in text.lines().enumerate() {
            let trimmed = raw.trim_start_matches(' ');
            let (content, comment) = split_comment(trimmed);
            lines.push(Line {
                number: i as u32 + 1,
                indent: raw.len() - trimmed.len(),
                content,
                comment,
                raw: raw.to_string(),
            });
        }
        Reader { lines, at: 0 }
    }

    fn comments(&mut self) -> Vec<String> {
        let mut found = Vec::new();
        while self.at < self.lines.len() && self.lines[self.at].content.is_empty() {
            if let Some(c) = self.lines[self.at].comment.clone() {
                found.push(c);
            }
            self.at += 1;
        }
        found
    }

    fn peek(&mut self) -> Option<Line> {
        let mut k = self.at;
        while k < self.lines.len() && self.lines[k].content.is_empty() {
            k += 1;
        }
        self.lines.get(k).cloned()
    }

    fn is_item(line: &Line) -> bool {
        line.content == "-" || line.content.starts_with("- ")
    }

    fn block(&mut self) -> Result<Tree, Fault> {
        let lead = self.comments();
        let line = self.lines[self.at].clone();
        let indent = line.indent;
        if Reader::is_item(&line) {
            let mut items = Vec::new();
            loop {
                match self.peek() {
                    Some(l) if l.indent == indent && Reader::is_item(&l) => {
                        self.comments();
                        let rest = l.content[1..].trim_start().to_string();
                        if rest.is_empty() {
                            self.at += 1;
                        } else {
                            let here = &mut self.lines[self.at];
                            here.indent += l.content.len() - rest.len();
                            here.content = rest;
                        }
                        items.push(self.block()?);
                    }
                    _ => return Ok(Tree::Sequence(items, BLOCK)),
                }
            }
        }
        let flowing = line.content.starts_with('[') || line.content.starts_with('{');
        if flowing || find_colon(&line.content).is_none() {
            self.at += 1;
            return inline(&line.content, line.number);
        }
        let mut members = Vec::new();
        let mut lead = lead;
        loop {
            match self.peek() {
                Some(l) if l.indent == indent && !Reader::is_item(&l) => {
                    lead.extend(self.comments());
                    let colon = match find_colon(&l.content) {
                        Some(c) => c,
                        None => {
                            return Err((
                                "could not find expected ':'".to_string(),
                                l.number,
                                indent as u32 + 1,
                            ))
                        }
                    };
                    let key = scalar(l.content[..colon].trim());
                    let rest = l.content[colon + 1..].trim().to_string();
                    self.at += 1;
                    let value = if rest.is_empty() {
                        match self.peek() {
                            Some(n) if n.indent > indent
                                || (n.indent == indent && Reader::is_item(&n)) =>
                            {
                                self.block()?
                            }
                            _ => Tree::Scalar(String::new(), PLAIN),
                        }
                    } else if rest == "|" {
                        let mut text = String::new();
                        while self.at < self.lines.len() && self.lines[self.at].indent > indent {
                            text.push_str(self.lines[self.at].raw.trim_start());
                            text.push('\n');
                            self.at += 1;
                        }
                        Tree::Scalar(text, LITERAL)
                    } else {
                        let mut value = inline(&rest, l.number)?;
                        while let Some(n) = self.peek() {
                            if n.indent <= indent {
                                break;
                            }
                            self.comments();
                            self.at += 1;
                            if let Tree::Scalar(text, PLAIN) = &mut value {
                                text.push(' ');
                                text.push_str(&n.content);
                            }
                        }
                        value
                    };
                    members.push(Member { key, value, lead, tail: l.comment.clone() });
                    lead = Vec::new();
                }
                _ => return Ok(Tree::Mapping(members, BLOCK)),
            }
        }
    }
}

fn read(text: &str) -> Result<Option<Tree>, Fault> {
    let mut reader = Reader::new(text);
    if reader.peek().is_none() {
        return Ok(None);
    }
    let tree = reader.block()?;
    match reader.peek() {
        None => Ok(Some(tree)),
        Some(line) => Err(("did not find expected block end".to_string(), line.number, 1)),
    }
}

// ---------------------------------------------------------------------------
// The stand-in
// ---------------------------------------------------------------------------

#[derive(Clone, Debug)]
enum Body {
    Scalar(String),
    Sequence(Vec<usize>),
    Mapping(Vec<usize>),
}

#[derive(Clone, Debug)]
struct Node {
    body: Body,
    attached: bool,
    style: i32,
    tag: Option<String>,
}

#[derive(Clone, Debug)]
struct Pair {
    key: usize,
    value: usize,
    lead: Vec<String>,
    tail: Option<String>,
}

#[derive(Clone, Debug, Default)]
struct Doc {
    root: usize,
    diag: usize,
}

#[derive(Clone, Debug, Default)]
struct Stream {
    pending: VecDeque<String>,
    error: bool,
    diag: usize,
}

type PairOrder = fn(&Lib, usize, usize, usize, usize) -> Ordering;
type ItemOrder = fn(&Lib, usize, usize) -> Ordering;

struct Lib {
    next: usize,
    nodes: BTreeMap<usize, Node>,
    pairs: BTreeMap<usize, Pair>,
    docs: BTreeMap<usize, Doc>,
    diags: BTreeMap<usize, Vec<Fault>>,
    buffers: BTreeMap<usize, String>,
    parsers: BTreeMap<usize, Stream>,
    emitters: BTreeMap<usize, u32>,
    fds: BTreeSet<i32>,
    files: BTreeSet<usize>,
    stdin: String,
    owned: Vec<u8>,
    pair_order: PairOrder,
    item_order: ItemOrder,
    failing: Vec<&'static str>,
    calls: Vec<&'static str>,
}

fn pairs_alike(_: &Lib, _: usize, _: usize, _: usize, _: usize) -> Ordering {
    Ordering::Equal
}

fn items_alike(_: &Lib, _: usize, _: usize) -> Ordering {
    Ordering::Equal
}

fn run<'a, S: Session<'a>>(lib: &mut Lib, step: Step<'a, S, S::Output>) -> S::Output {
    let mut step = step;
    loop {
        match step {
            Step::Done(result) => return result,
            Step::Ask(session, call) => {
                let reply = lib.perform(&call);
                step = session.resume(reply);
            }
        }
    }
}

fn run_owned(
    lib: &mut Lib,
    step: Step<'static, ParseOwned, Result<Document, Error>>,
) -> Result<Document, Error> {
    let mut step = step;
    loop {
        match step {
            Step::Done(result) => return result,
            Step::Ask(session, call) => {
                if let ParseOwned::Building { input, .. } = &session {
                    lib.owned = match input {
                        InputOwnership::OwnedString(s) => s.as_bytes().to_vec(),
                        InputOwnership::OwnedBytes(b) => b.clone(),
                        _ => Vec::new(),
                    };
                }
                let reply = lib.perform(&call);
                step = session.resume(reply);
            }
        }
    }
}

impl Lib {
    fn new() -> Lib {
        Lib {
            next: 0x1000,
            nodes: BTreeMap::new(),
            pairs: BTreeMap::new(),
            docs: BTreeMap::new(),
            diags: BTreeMap::new(),
            buffers: BTreeMap::new(),
            parsers: BTreeMap::new(),
            emitters: BTreeMap::new(),
            fds: BTreeSet::new(),
            files: BTreeSet::new(),
            stdin: String::new(),
            owned: Vec::new(),
            pair_order: pairs_alike,
            item_order: items_alike,
            failing: Vec::new(),
            calls: Vec::new(),
        }
    }

    /// A stand-in in which some calls fail.
    fn failing(names: &[&'static str]) -> Lib {
        let mut lib = Lib::new();
        lib.failing = names.to_vec();
        lib
    }

    fn fresh(&mut self) -> usize {
        self.next += 16;
        self.next
    }

    /// Whether nothing is held any more.
    fn settled(&self) -> bool {
        self.docs.is_empty() && self.parsers.is_empty() && self.idle()
    }

    /// Whether nothing is held but documents and parsers.
    fn idle(&self) -> bool {
        self.buffers.is_empty()
            && self.emitters.is_empty()
            && self.fds.is_empty()
            && self.files.is_empty()
            && self.diags.len() == self.parsers.values().filter(|p| p.diag != 0).count()
    }

    fn build(&mut self, tree: &Tree) -> usize {
        let (body, style) = match tree {
            Tree::Scalar(text, style) => (Body::Scalar(text.clone()), *style),
            Tree::Sequence(items, style) => {
                let items: Vec<usize> = items.iter().map(|t| self.build(t)).collect();
                for i in &items {
                    self.nodes.get_mut(i).unwrap().attached = true;
                }
                (Body::Sequence(items), *style)
            }
            Tree::Mapping(members, style) => {
                let mut pairs = Vec::new();
                for m in members {
                    let key = self.build(&m.key);
                    let value = self.build(&m.value);
                    self.nodes.get_mut(&key).unwrap().attached = true;
                    self.nodes.get_mut(&value).unwrap().attached = true;
                    let pair = self.fresh();
                    self.pairs.insert(
                        pair,
                        Pair { key, value, lead: m.lead.clone(), tail: m.tail.clone() },
                    );
                    pairs.push(pair);
                }
                (Body::Mapping(pairs), *style)
            }
        };
        let address = self.fresh();
        self.nodes.insert(address, Node { body, attached: false, style, tag: None });
        address
    }

    fn load(&mut self, text: &str, diag: usize) -> usize {
        match read(text) {
            Ok(tree) => {
                let root = match tree {
                    Some(t) => self.build(&t),
                    None => 0,
                };
                if root != 0 {
                    self.nodes.get_mut(&root).unwrap().attached = true;
                }
                let doc = self.fresh();
                self.docs.insert(doc, Doc { root, diag: 0 });
                doc
            }
            Err(fault) => {
                if let Some(d) = self.diags.get_mut(&diag) {
                    d.push(fault);
                }
                0
            }
        }
    }

    fn drop_tree(&mut self, node: usize) {
        if let Some(n) = self.nodes.remove(&node) {
            match n.body {
                Body::Scalar(_) => {}
                Body::Sequence(items) => items.iter().for_each(|i| self.drop_tree(*i)),
                Body::Mapping(pairs) => {
                    for p in pairs {
                        let pair = self.pairs.remove(&p).unwrap();
                        self.drop_tree(pair.key);
                        self.drop_tree(pair.value);
                    }
                }
            }
        }
    }

    fn copy_tree(&mut self, node: usize) -> usize {
        let n = self.nodes[&node].clone();
        let body = match &n.body {
            Body::Scalar(s) => Body::Scalar(s.clone()),
            Body::Sequence(items) => {
                let items: Vec<usize> = items.iter().map(|i| self.copy_tree(*i)).collect();
                for i in &items {
                    self.nodes.get_mut(i).unwrap().attached = true;
                }
                Body::Sequence(items)
            }
            Body::Mapping(pairs) => {
                let mut copies = Vec::new();
                for p in pairs {
                    let pair = self.pairs[p].clone();
                    let key = self.copy_tree(pair.key);
                    let value = self.copy_tree(pair.value);
                    self.nodes.get_mut(&key).unwrap().attached = true;
                    self.nodes.get_mut(&value).unwrap().attached = true;
                    let address = self.fresh();
                    self.pairs.insert(address, Pair { key, value, ..pair });
                    copies.push(address);
                }
                Body::Mapping(copies)
            }
        };
        let address = self.fresh();
        self.nodes.insert(address, Node { body, attached: false, ..n });
        address
    }

    fn text(&self, node: usize) -> &str {
        match &self.nodes[&node].body {
            Body::Scalar(s) => s,
            _ => "",
        }
    }

    fn find_pair(&self, map: usize, name: &str) -> usize {
        match &self.nodes[&map].body {
            Body::Mapping(pairs) => pairs
                .iter()
                .copied()
                .find(|p| {
                    let key = &self.nodes[&self.pairs[p].key];
                    matches!(&key.body, Body::Scalar(s) if s == name)
                })
                .unwrap_or(0),
            _ => 0,
        }
    }

    fn item(&self, seq: usize, index: i32) -> usize {
        match &self.nodes[&seq].body {
            Body::Sequence(items) => {
                let n = items.len() as i64;
                let at = if index < 0 { n + index as i64 } else { index as i64 };
                if 0 <= at && at < n {
                    items[at as usize]
                } else {
                    0
                }
            }
            _ => 0,
        }
    }

    fn follow(&self, node: usize, path: &str) -> usize {
        let mut here = node;
        for seg in path.split('/').filter(|s| !s.is_empty()) {
            here = match &self.nodes[&here].body {
                Body::Scalar(_) => 0,
                Body::Sequence(_) => {
                    let inner = seg.strip_prefix('[').and_then(|s| s.strip_suffix(']'));
                    match inner.unwrap_or(seg).parse::<i32>() {
                        Ok(i) if !seg.starts_with('+') => self.item(here, i),
                        _ => 0,
                    }
                }
                Body::Mapping(_) => match self.find_pair(here, seg) {
                    0 => 0,
                    pair => self.pairs[&pair].value,
                },
            };
            if here == 0 {
                return 0;
            }
        }
        here
    }

    fn loose(&self, node: usize) -> bool {
        self.nodes.get(&node).map_or(false, |n| !n.attached)
    }

    fn sort_pairs(&mut self, map: usize) {
        let order = self.pair_order;
        if let Body::Mapping(mut pairs) = self.nodes[&map].body.clone() {
            pairs.sort_by(|a, b| {
                let (a, b) = (&self.pairs[a], &self.pairs[b]);
                comparator_code(order(self, a.key, a.value, b.key, b.value)).cmp(&0)
            });
            self.nodes.get_mut(&map).unwrap().body = Body::Mapping(pairs);
        }
    }

    fn sort_all(&mut self, node: usize) {
        self.sort_pairs(node);
        match self.nodes[&node].body.clone() {
            Body::Scalar(_) => {}
            Body::Sequence(items) => items.iter().for_each(|i| self.sort_all(*i)),
            Body::Mapping(pairs) => {
                for p in pairs {
                    let pair = self.pairs[&p].clone();
                    self.sort_all(pair.key);
                    self.sort_all(pair.value);
                }
            }
        }
    }

    fn perform(&mut self, call: &Call) -> Reply {
        let name = call_name(call);
        self.calls.push(name);
        if self.failing.contains(&name) {
            return match call {
                Call::MallocCopy { .. } => Reply::Fault(Error::Ffi("malloc failed")),
                Call::DiagCreate
                | Call::DocumentCreate
                | Call::DocumentBuildFromMallocString { .. }
                | Call::DocumentBuildFromOwned { .. }
                | Call::NodeCreateScalarCopy { .. }
                | Call::NodeCreateSequence { .. }
                | Call::NodeCreateMapping { .. }
                | Call::NodeCopy { .. }
                | Call::NodeBuildFromMallocString { .. }
                | Call::EmitterCreate { .. }
                | Call::ParserCreate { .. }
                | Call::ParseLoadDocument { .. }
                | Call::FdOpen { .. } => {
                    if let Call::NodeBuildFromMallocString { buffer, .. } = call {
                        self.buffers.remove(buffer);
                    }
                    Reply::Pointer(0)
                }
                Call::EmitDocumentToString { .. }
                | Call::EmitNodeToString { .. }
                | Call::LibraryVersion => Reply::Text(None),
                Call::EmitDocument { .. } => Reply::Emitted { status: -1, pieces: Vec::new() },
                _ => Reply::Status(-1),
            };
        }
        match call {
            Call::MallocCopy { text } => {
                let address = self.fresh();
                self.buffers.insert(address, text.to_string());
                Reply::Pointer(address)
            }
            Call::Free { buffer } => {
                assert!(self.buffers.remove(buffer).is_some(), "freed twice");
                Reply::Void
            }
            Call::DiagCreate => {
                let address = self.fresh();
                self.diags.insert(address, Vec::new());
                Reply::Pointer(address)
            }
            Call::DiagTakeFirst { diag } => {
                let faults = self.diags.remove(diag).unwrap();
                Reply::First(faults.first().map(parse_error))
            }
            Call::DiagPeekFirst { diag } => Reply::First(self.diags[diag].first().map(parse_error)),
            Call::DiagDestroy { diag } => {
                assert!(self.diags.remove(diag).is_some(), "destroyed twice");
                Reply::Void
            }
            Call::DocumentCreate => {
                let doc = self.fresh();
                self.docs.insert(doc, Doc::default());
                Reply::Pointer(doc)
            }
            Call::DocumentBuildFromMallocString { diag, buffer, len } => {
                let text = self.buffers[buffer].clone();
                assert_eq!(text.len(), *len);
                let doc = self.load(&text, *diag);
                if doc != 0 {
                    self.buffers.remove(buffer);
                }
                Reply::Pointer(doc)
            }
            Call::DocumentBuildFromOwned { diag, len } => {
                let text = String::from_utf8(self.owned.clone()).unwrap();
                assert_eq!(text.len(), *len);
                Reply::Pointer(self.load(&text, *diag))
            }
            Call::DocumentDestroy { doc } | Call::ParseDocumentDestroy { doc, .. } => {
                let root = self.docs.remove(doc).expect("destroyed twice").root;
                self.drop_tree(root);
                Reply::Void
            }
            Call::DocumentRoot { doc } => Reply::Pointer(self.docs[doc].root),
            Call::DocumentSetRoot { doc, node } => {
                if !self.loose(*node) {
                    return Reply::Status(-1);
                }
                let old = self.docs[doc].root;
                self.drop_tree(old);
                self.nodes.get_mut(node).unwrap().attached = true;
                self.docs.get_mut(doc).unwrap().root = *node;
                Reply::Status(0)
            }
            Call::DocumentGetDiag { doc } => Reply::Pointer(self.docs[doc].diag),
            Call::DocumentSetDiag { doc, diag } => {
                self.docs.get_mut(doc).unwrap().diag = *diag;
                Reply::Void
            }
            Call::EmitDocumentToString { doc, flags } => {
                let root = self.docs[doc].root;
                Reply::Text(Some(join(&self.pieces(root, *flags, true))))
            }
            Call::EmitNodeToString { node, flags } => {
                Reply::Text(Some(join(&self.pieces(*node, *flags, false))))
            }
            Call::NodeBuildFromMallocString { doc, buffer, len } => {
                let text = self.buffers.remove(buffer).unwrap();
                assert_eq!(text.len(), *len);
                match read(&text) {
                    Ok(Some(tree)) => Reply::Pointer(self.build(&tree)),
                    Ok(None) => Reply::Pointer(0),
                    Err(fault) => {
                        let diag = self.docs[doc].diag;
                        if let Some(d) = self.diags.get_mut(&diag) {
                            d.push(fault);
                        }
                        Reply::Pointer(0)
                    }
                }
            }
            Call::NodeCreateScalarCopy { text, .. } => {
                Reply::Pointer(self.build(&Tree::Scalar(text.to_string(), PLAIN)))
            }
            Call::NodeCreateSequence { .. } => {
                Reply::Pointer(self.build(&Tree::Sequence(Vec::new(), BLOCK)))
            }
            Call::NodeCreateMapping { .. } => {
                Reply::Pointer(self.build(&Tree::Mapping(Vec::new(), BLOCK)))
            }
            Call::NodeCopy { source, .. } => Reply::Pointer(self.copy_tree(*source)),
            Call::NodeFree { node } => {
                if self.loose(*node) {
                    self.drop_tree(*node);
                }
                Reply::Void
            }
            Call::NodeByPath { node, path } => Reply::Pointer(self.follow(*node, path)),
            Call::NodeGetType { node } => Reply::Word(match self.nodes[node].body {
                Body::Scalar(_) => 0,
                Body::Sequence(_) => 1,
                Body::Mapping(_) => 2,
            }),
            Call::NodeGetStyle { node } => Reply::Status(self.nodes[node].style),
            Call::NodeSetStyle { node, style } => {
                self.nodes.get_mut(node).unwrap().style = *style;
                Reply::Status(*style)
            }
            Call::NodeSetTag { node, tag } => {
                self.nodes.get_mut(node).unwrap().tag = Some(tag.to_string());
                Reply::Status(0)
            }
            Call::NodeGetScalar { node } => match &self.nodes[node].body {
                Body::Scalar(s) => Reply::Slice { address: *node, len: s.len() },
                _ => Reply::Slice { address: 0, len: 0 },
            },
            Call::NodeGetTag { node } => match &self.nodes[node].tag {
                Some(t) => Reply::Slice { address: *node, len: t.len() },
                None => Reply::Slice { address: 0, len: 0 },
            },
            Call::SequenceItemCount { seq } => Reply::Status(match &self.nodes[seq].body {
                Body::Sequence(items) => items.len() as i32,
                _ => -1,
            }),
            Call::SequenceGetByIndex { seq, index } => Reply::Pointer(self.item(*seq, *index)),
            Call::SequenceIterate { seq, last } => Reply::Pointer(match &self.nodes[seq].body {
                Body::Sequence(items) => after(items, *last),
                _ => 0,
            }),
            Call::SequenceAppend { seq, item } => {
                if !self.loose(*item) {
                    return Reply::Status(-1);
                }
                match &mut self.nodes.get_mut(seq).unwrap().body {
                    Body::Sequence(items) => items.push(*item),
                    _ => return Reply::Status(-1),
                }
                self.nodes.get_mut(item).unwrap().attached = true;
                Reply::Status(0)
            }
            Call::SequenceInsertBefore { seq, mark, item } => {
                if !self.loose(*item) {
                    return Reply::Status(-1);
                }
                match &mut self.nodes.get_mut(seq).unwrap().body {
                    Body::Sequence(items) => match items.iter().position(|i| i == mark) {
                        Some(at) => items.insert(at, *item),
                        None => return Reply::Status(-1),
                    },
                    _ => return Reply::Status(-1),
                }
                self.nodes.get_mut(item).unwrap().attached = true;
                Reply::Status(0)
            }
            Call::SequenceRemove { seq, item } => {
                match &mut self.nodes.get_mut(seq).unwrap().body {
                    Body::Sequence(items) => match items.iter().position(|i| i == item) {
                        Some(at) => {
                            items.remove(at);
                        }
                        None => return Reply::Pointer(0),
                    },
                    _ => return Reply::Pointer(0),
                }
                self.nodes.get_mut(item).unwrap().attached = false;
                Reply::Pointer(*item)
            }
            Call::SequenceSort { seq } => {
                let order = self.item_order;
                match self.nodes[seq].body.clone() {
                    Body::Sequence(mut items) => {
                        items.sort_by(|a, b| comparator_code(order(self, *a, *b)).cmp(&0));
                        let node = self.nodes.get_mut(seq).unwrap();
                        node.body = Body::Sequence(items);
                        node.style = BLOCK;
                        Reply::Status(0)
                    }
                    _ => Reply::Status(-1),
                }
            }
            Call::MappingItemCount { map } => Reply::Status(match &self.nodes[map].body {
                Body::Mapping(pairs) => pairs.len() as i32,
                _ => -1,
            }),
            Call::MappingIterate { map, last } => Reply::Pointer(match &self.nodes[map].body {
                Body::Mapping(pairs) => after(pairs, *last),
                _ => 0,
            }),
            Call::MappingLookupByString { map, name } => {
                Reply::Pointer(match self.find_pair(*map, name) {
                    0 => 0,
                    pair => self.pairs[&pair].value,
                })
            }
            Call::MappingLookupPairByString { map, name } => {
                Reply::Pointer(self.find_pair(*map, name))
            }
            Call::MappingAppend { map, key, value } => {
                if !self.loose(*key) || !self.loose(*value) {
                    return Reply::Status(-1);
                }
                if self.find_pair(*map, self.text(*key)) != 0 {
                    return Reply::Status(-1);
                }
                let pair = self.fresh();
                match &mut self.nodes.get_mut(map).unwrap().body {
                    Body::Mapping(pairs) => pairs.push(pair),
                    _ => return Reply::Status(-1),
                }
                self.pairs.insert(
                    pair,
                    Pair { key: *key, value: *value, lead: Vec::new(), tail: None },
                );
                self.nodes.get_mut(key).unwrap().attached = true;
                self.nodes.get_mut(value).unwrap().attached = true;
                Reply::Status(0)
            }
            Call::MappingRemoveByKey { map, key } => {
                let found = match &self.nodes[map].body {
                    Body::Mapping(pairs) => pairs.iter().position(|p| self.pairs[p].key == *key),
                    _ => None,
                };
                match found {
                    None => Reply::Pointer(0),
                    Some(at) => {
                        let mut pair = 0;
                        if let Body::Mapping(pairs) = &mut self.nodes.get_mut(map).unwrap().body {
                            pair = pairs.remove(at);
                        }
                        let pair = self.pairs.remove(&pair).unwrap();
                        self.drop_tree(pair.key);
                        self.nodes.get_mut(&pair.value).unwrap().attached = false;
                        Reply::Pointer(pair.value)
                    }
                }
            }
            Call::MappingSort { map } => {
                self.sort_pairs(*map);
                Reply::Status(0)
            }
            Call::NodeSort { node } => {
                self.sort_all(*node);
                Reply::Status(0)
            }
            Call::PairKey { pair } => Reply::Pointer(self.pairs[pair].key),
            Call::PairValue { pair } => Reply::Pointer(self.pairs[pair].value),
            Call::PairSetValue { pair, value } => {
                if !self.loose(*value) {
                    return Reply::Status(-1);
                }
                let old = self.pairs[pair].value;
                self.drop_tree(old);
                self.nodes.get_mut(value).unwrap().attached = true;
                self.pairs.get_mut(pair).unwrap().value = *value;
                Reply::Status(0)
            }
            Call::EmitterCreate { flags, extended } => {
                assert_eq!(*flags & 128 != 0, extended.is_some());
                let emitter = self.fresh();
                self.emitters.insert(emitter, *flags);
                Reply::Pointer(emitter)
            }
            Call::EmitDocument { emitter, doc } => {
                let root = self.docs[doc].root;
                let pieces = self.pieces(root, self.emitters[emitter], true);
                Reply::Emitted {
                    status: 0,
                    pieces: pieces.into_iter().map(|(t, s)| (t, s.into_bytes())).collect(),
                }
            }
            Call::EmitterDestroy { emitter } => {
                assert!(self.emitters.remove(emitter).is_some(), "destroyed twice");
                Reply::Void
            }
            Call::ParserCreate { diag } => {
                let parser = self.fresh();
                self.parsers.insert(parser, Stream { diag: *diag, ..Stream::default() });
                Reply::Pointer(parser)
            }
            Call::ParserDestroy { parser } => {
                assert!(self.parsers.remove(parser).is_some(), "destroyed twice");
                Reply::Void
            }
            Call::ParserSetMallocString { parser, buffer, len } => {
                let text = self.buffers.remove(buffer).unwrap();
                assert_eq!(text.len(), *len);
                self.parsers.get_mut(parser).unwrap().pending = split_stream(&text);
                Reply::Status(0)
            }
            Call::ParserSetInputFp { parser, file } => {
                assert!(self.files.remove(file));
                let pending = split_stream(&self.stdin);
                self.parsers.get_mut(parser).unwrap().pending = pending;
                Reply::Status(0)
            }
            Call::ParseLoadDocument { parser } => {
                let stream = self.parsers.get_mut(parser).unwrap();
                let diag = stream.diag;
                match stream.pending.pop_front() {
                    None => Reply::Pointer(0),
                    Some(text) => {
                        let doc = self.load(&text, diag);
                        if doc == 0 {
                            self.parsers.get_mut(parser).unwrap().error = true;
                        }
                        Reply::Pointer(doc)
                    }
                }
            }
            Call::ParserGetStreamError { parser } => Reply::Flag(self.parsers[parser].error),
            Call::DupStdin => {
                self.fds.insert(7);
                Reply::Status(7)
            }
            Call::FdOpen { fd } => {
                assert!(self.fds.remove(fd));
                let file = self.fresh();
                self.files.insert(file);
                Reply::Pointer(file)
            }
            Call::FdClose { fd } => {
                assert!(self.fds.remove(fd));
                Reply::Status(0)
            }
            Call::SetLineBuffered { .. } => Reply::Status(0),
            Call::FileClose { file } => {
                assert!(self.files.remove(file));
                Reply::Status(0)
            }
            Call::LibraryVersion => Reply::Text(Some(b"0.9.3".to_vec())),
        }
    }

    // -- what an emission writes --

    fn pieces(&self, node: usize, flags: u32, whole: bool) -> Vec<(u32, String)> {
        let mut out = Vec::new();
        if node == 0 {
            return out;
        }
        let mode = (flags >> 20) & 0xf;
        if mode == 4 || mode == 5 || mode == 6 {
            self.json(node, &mut out);
        } else {
            self.write(node, 0, flags, &mut out);
        }
        if whole && flags & 32 == 0 && out.last().map_or(true, |(t, _)| *t != 13) {
            out.push((13, "\n".to_string()));
        }
        out
    }

    fn ordered(&self, pairs: &[usize], flags: u32) -> Vec<Pair> {
        let mut list: Vec<Pair> = pairs.iter().map(|p| self.pairs[p].clone()).collect();
        if flags & 1 != 0 {
            list.sort_by(|a, b| self.text(a.key).cmp(self.text(b.key)));
        }
        list
    }

    fn json(&self, node: usize, out: &mut Vec<(u32, String)>) {
        match &self.nodes[&node].body {
            Body::Scalar(s) => {
                if s.parse::<i64>().is_ok() {
                    out.push((6, s.clone()));
                } else {
                    out.push((8, format!("\"{s}\"")));
                }
            }
            Body::Sequence(items) => {
                out.push((23, "[".to_string()));
                for (i, item) in items.iter().enumerate() {
                    if i > 0 {
                        out.push((27, ",".to_string()));
                    }
                    self.json(*item, out);
                }
                out.push((24, "]".to_string()));
            }
            Body::Mapping(pairs) => {
                out.push((25, "{".to_string()));
                for (i, p) in pairs.iter().enumerate() {
                    if i > 0 {
                        out.push((27, ",".to_string()));
                    }
                    out.push((18, format!("\"{}\"", self.text(self.pairs[p].key))));
                    out.push((21, ":".to_string()));
                    self.json(self.pairs[p].value, out);
                }
                out.push((26, "}".to_string()));
            }
        }
    }

    fn quoted(&self, node: usize) -> (u32, String) {
        let s = self.text(node);
        match self.nodes[&node].style {
            SINGLE => (7, format!("'{}'", s.replace('\'', "''"))),
            DOUBLE => (8, format!("\"{}\"", s.replace('"', "\\\""))),
            _ => (6, s.to_string()),
        }
    }

    fn in_flow(&self, node: usize, flags: u32) -> bool {
        let n = &self.nodes[&node];
        match &n.body {
            Body::Scalar(_) => n.style != LITERAL,
            Body::Sequence(items) => items.is_empty() || (n.style == FLOW && (flags >> 20) & 0xf != 1),
            Body::Mapping(pairs) => pairs.is_empty() || (n.style == FLOW && (flags >> 20) & 0xf != 1),
        }
    }

    fn write_flow(&self, node: usize, flags: u32, out: &mut Vec<(u32, String)>) {
        match &self.nodes[&node].body {
            Body::Scalar(_) => out.push(self.quoted(node)),
            Body::Sequence(items) => {
                out.push((23, "[".to_string()));
                for (i, item) in items.iter().enumerate() {
                    if i > 0 {
                        out.push((27, ",".to_string()));
                        out.push((5, " ".to_string()));
                    }
                    self.write_flow(*item, flags, out);
                }
                out.push((24, "]".to_string()));
            }
            Body::Mapping(pairs) => {
                out.push((25, "{".to_string()));
                for (i, p) in self.ordered(pairs, flags).iter().enumerate() {
                    if i > 0 {
                        out.push((27, ",".to_string()));
                        out.push((5, " ".to_string()));
                    }
                    out.push((16, self.quoted(p.key).1));
                    out.push((21, ":".to_string()));
                    out.push((5, " ".to_string()));
                    self.write_flow(p.value, flags, out);
                }
                out.push((26, "}".to_string()));
            }
        }
    }

    fn write(&self, node: usize, level: usize, flags: u32, out: &mut Vec<(u32, String)>) {
        let width = match (flags >> 8) & 0xf {
            0 => 2,
            n => n as usize,
        };
        let indent = " ".repeat(width * level);
        if self.in_flow(node, flags) {
            self.write_flow(node, flags, out);
            return;
        }
        match &self.nodes[&node].body {
            Body::Scalar(s) => {
                out.push((28, "|".to_string()));
                for line in s.lines() {
                    out.push((13, "\n".to_string()));
                    out.push((3, indent.clone()));
                    out.push((9, line.to_string()));
                }
            }
            Body::Sequence(items) => {
                for (i, item) in items.iter().enumerate() {
                    if i > 0 {
                        out.push((13, "\n".to_string()));
                    }
                    out.push((3, indent.clone()));
                    out.push((22, "-".to_string()));
                    out.push((5, " ".to_string()));
                    if self.in_flow(*item, flags) {
                        self.write_flow(*item, flags, out);
                    } else {
                        out.push((13, "\n".to_string()));
                        self.write(*item, level + 1, flags, out);
                    }
                }
            }
            Body::Mapping(pairs) => {
                for (i, p) in self.ordered(pairs, flags).iter().enumerate() {
                    if i > 0 {
                        out.push((13, "\n".to_string()));
                    }
                    if flags & 2 != 0 {
                        for c in &p.lead {
                            out.push((3, indent.clone()));
                            out.push((19, c.clone()));
                            out.push((13, "\n".to_string()));
                        }
                    }
                    out.push((3, indent.clone()));
                    out.push((16, self.quoted(p.key).1));
                    out.push((21, ":".to_string()));
                    let inner = &self.nodes[&p.value].body;
                    if self.in_flow(p.value, flags) || matches!(inner, Body::Scalar(_)) {
                        out.push((5, " ".to_string()));
                    } else {
                        out.push((13, "\n".to_string()));
                    }
                    self.write(p.value, level + 1, flags, out);
                    if flags & 2 != 0 {
                        if let Some(c) = &p.tail {
                            out.push((5, " ".to_string()));
                            out.push((19, c.clone()));
                        }
                    }
                }
            }
        }
    }

    // -- shorthands for the operations --

    fn parse(&mut self, text: &str) -> Result<Document, Error> {
        run(self, Document::parse_str(text))
    }

    fn create(&mut self) -> Document {
        run(self, Document::new()).unwrap()
    }

    fn at(&mut self, doc: &Document, path: &str) -> Option<usize> {
        run(self, doc.at_path(path)).map(|n| n.node)
    }

    fn root(&mut self, doc: &Document) -> Option<usize> {
        run(self, doc.root()).map(|n| n.node)
    }

    fn scalar(&mut self, doc: &Document, node: usize) -> String {
        let node = NodeRef::new(node, doc);
        let span: Span = run(self, node.scalar_bytes()).unwrap();
        let bytes = &self.text(span.address).as_bytes()[..span.len];
        NodeRef::new(node.node, doc).scalar_str(Ok(bytes)).unwrap().to_string()
    }

    fn text_at(&mut self, doc: &Document, path: &str) -> String {
        let node = self.at(doc, path).unwrap();
        self.scalar(doc, node)
    }

    fn set(&mut self, doc: &mut Document, path: &str, yaml: &str) -> Result<(), Error> {
        run(self, doc.edit().set_yaml_at(path, yaml))
    }

    fn delete(&mut self, doc: &mut Document, path: &str) -> Result<bool, Error> {
        run(self, doc.edit().delete_at(path))
    }

    fn emit(&mut self, doc: &Document) -> String {
        emitted_text(run(self, doc.emit())).unwrap()
    }

    fn emit_node(&mut self, doc: &Document, node: usize) -> String {
        emitted_text(run(self, NodeRef::new(node, doc).emit())).unwrap()
    }

    fn is(&mut self, doc: &Document, node: usize, kind: NodeType) -> bool {
        let node = NodeRef::new(node, doc);
        let by_test = match kind {
            NodeType::Scalar => run(self, node.is_scalar()),
            NodeType::Sequence => run(self, node.is_sequence()),
            NodeType::Mapping => run(self, node.is_mapping()),
        };
        assert_eq!(by_test, run(self, node.kind()) == kind);
        by_test
    }

    fn seq_get(&mut self, doc: &Document, node: usize, index: i32) -> Option<usize> {
        run(self, NodeRef::new(node, doc).seq_get(index)).map(|n| n.node)
    }

    fn map_get(&mut self, doc: &Document, node: usize, key: &str) -> Option<usize> {
        run(self, NodeRef::new(node, doc).map_get(key)).map(|n| n.node)
    }

    fn entries(&mut self, doc: &Document, path: &str) -> Vec<(String, String)> {
        let node = self.at(doc, path).unwrap();
        let mut iter = NodeRef::new(node, doc).map_iter();
        let mut found = Vec::new();
        loop {
            let (next, pair) = run(self, iter.next());
            iter = next;
            match pair {
                None => return found,
                Some((k, v)) => {
                    let entry = (self.scalar(doc, k.node), self.scalar(doc, v.node));
                    found.push(entry);
                }
            }
        }
    }

    fn items(&mut self, doc: &Document, path: &str) -> Vec<String> {
        let node = self.at(doc, path).unwrap();
        let mut iter = NodeRef::new(node, doc).seq_iter();
        let mut found = Vec::new();
        loop {
            let (next, item) = run(self, iter.next());
            iter = next;
            match item {
                None => return found,
                Some(i) => {
                    let text = self.scalar(doc, i.node);
                    found.push(text);
                }
            }
        }
    }

    fn events(&mut self, emitter: Emitter<'_>) -> Vec<EmitEvent> {
        let pieces = run(self, emitter.emit_events()).unwrap();
        events_of(&pieces)
    }

    fn close(&mut self, doc: Document) {
        let call = doc.release();
        self.perform(&call);
        if let InputOwnership::Parser(inner) = doc.input {
            self.let_go(inner);
        }
    }

    fn let_go(&mut self, inner: Rc<fyaml::parser::ParserInner>) {
        if let Some(inner) = Rc::into_inner(inner) {
            run(self, CloseParser::start(&inner));
        }
    }

    fn stream(&mut self, text: &str) -> FyParser {
        run(self, FyParser::from_string(text)).ok().unwrap()
    }

    fn collect(&mut self, iter: DocumentIterator) -> Vec<Result<Document, Error>> {
        let mut iter = iter;
        let mut found = Vec::new();
        loop {
            let (next, doc) = run(self, iter.next());
            iter = next;
            match doc {
                None => {
                    self.let_go(iter.inner);
                    return found;
                }
                Some(d) => found.push(d),
            }
        }
    }
}

fn after(list: &[usize], last: usize) -> usize {
    if last == 0 {
        list.first().copied().unwrap_or(0)
    } else {
        match list.iter().position(|i| *i == last) {
            Some(at) => list.get(at + 1).copied().unwrap_or(0),
            None => 0,
        }
    }
}

fn parse_error(fault: &Fault) -> ParseError {
    ParseError { message: fault.0.clone(), line: fault.1, column: fault.2 }
}

fn split_stream(text: &str) -> VecDeque<String> {
    let mut parts = VecDeque::new();
    let mut part = String::new();
    for line in text.lines() {
        if line == "---" {
            if !part.trim().is_empty() {
                parts.push_back(part);
            }
            part = String::new();
        } else {
            part.push_str(line);
            part.push('\n');
        }
    }
    if !part.trim().is_empty() {
        parts.push_back(part);
    }
    parts
}

fn join(pieces: &[(u32, String)]) -> Vec<u8> {
    pieces.iter().map(|(_, s)| s.as_str()).collect::<String>().into_bytes()
}

fn call_name(call: &Call) -> &'static str {
    match call {
        Call::MallocCopy { .. } => "malloc",
        Call::Free { .. } => "free",
        Call::DiagCreate => "diag_create",
        Call::DiagTakeFirst { .. } => "diag_take",
        Call::DiagPeekFirst { .. } => "diag_peek",
        Call::DiagDestroy { .. } => "diag_destroy",
        Call::DocumentCreate => "document_create",
        Call::DocumentBuildFromMallocString { .. } => "document_build",
        Call::DocumentBuildFromOwned { .. } => "document_build_owned",
        Call::DocumentDestroy { .. } => "document_destroy",
        Call::ParseDocumentDestroy { .. } => "parse_document_destroy",
        Call::DocumentRoot { .. } => "root",
        Call::DocumentSetRoot { .. } => "set_root",
        Call::DocumentGetDiag { .. } => "get_diag",
        Call::DocumentSetDiag { .. } => "set_diag",
        Call::EmitDocumentToString { .. } => "emit_document_to_string",
        Call::EmitNodeToString { .. } => "emit_node_to_string",
        Call::NodeBuildFromMallocString { .. } => "node_build",
        Call::NodeCreateScalarCopy { .. } => "create_scalar",
        Call::NodeCreateSequence { .. } => "create_sequence",
        Call::NodeCreateMapping { .. } => "create_mapping",
        Call::NodeCopy { .. } => "copy",
        Call::NodeFree { .. } => "node_free",
        Call::NodeByPath { .. } => "by_path",
        Call::NodeGetType { .. } => "get_type",
        Call::NodeGetStyle { .. } => "get_style",
        Call::NodeSetStyle { .. } => "set_style",
        Call::NodeSetTag { .. } => "set_tag",
        Call::NodeGetScalar { .. } => "get_scalar",
        Call::NodeGetTag { .. } => "get_tag",
        Call::SequenceItemCount { .. } => "seq_count",
        Call::SequenceGetByIndex { .. } => "seq_get",
        Call::SequenceIterate { .. } => "seq_iterate",
        Call::SequenceAppend { .. } => "seq_append",
        Call::SequenceInsertBefore { .. } => "seq_insert_before",
        Call::SequenceRemove { .. } => "seq_remove",
        Call::SequenceSort { .. } => "seq_sort",
        Call::MappingItemCount { .. } => "map_count",
        Call::MappingIterate { .. } => "map_iterate",
        Call::MappingLookupByString { .. } => "map_lookup",
        Call::MappingLookupPairByString { .. } => "map_lookup_pair",
        Call::MappingAppend { .. } => "map_append",
        Call::MappingRemoveByKey { .. } => "map_remove",
        Call::MappingSort { .. } => "map_sort",
        Call::NodeSort { .. } => "node_sort",
        Call::PairKey { .. } => "pair_key",
        Call::PairValue { .. } => "pair_value",
        Call::PairSetValue { .. } => "pair_set_value",
        Call::EmitterCreate { .. } => "emitter_create",
        Call::EmitDocument { .. } => "emit_document",
        Call::EmitterDestroy { .. } => "emitter_destroy",
        Call::ParserCreate { .. } => "parser_create",
        Call::ParserDestroy { .. } => "parser_destroy",
        Call::ParserSetMallocString { .. } => "parser_set_string",
        Call::ParserSetInputFp { .. } => "parser_set_fp",
        Call::ParseLoadDocument { .. } => "load_document",
        Call::ParserGetStreamError { .. } => "stream_error",
        Call::DupStdin => "dup",
        Call::FdOpen { .. } => "fdopen",
        Call::FdClose { .. } => "close",
        Call::SetLineBuffered { .. } => "setvbuf",
        Call::FileClose { .. } => "fclose",
        Call::LibraryVersion => "version",
    }
}

fn owned(pairs: &[(&str, &str)]) -> Vec<(String, String)> {
    pairs.iter().map(|(a, b)| (a.to_string(), b.to_string())).collect()
}

fn strings(items: &[&str]) -> Vec<String> {
    items.iter().map(|s| s.to_string()).collect()
}

fn events_to_string(events: &[EmitEvent]) -> String {
    events.iter().map(|e| e.content.as_str()).collect()
}

// ---------------------------------------------------------------------------
// Documents
// ---------------------------------------------------------------------------

#[test]
fn test_parse_simple() {
    let mut lib = Lib::new();
    let doc = lib.parse("foo: bar").unwrap();
    assert!(lib.root(&doc).is_some());
}

#[test]
fn test_parse_empty_fails() {
    let mut lib = Lib::new();
    let result = lib.parse("");
    assert!(result.is_err());
}

#[test]
fn test_new_empty_document() {
    let mut lib = Lib::new();
    let doc = lib.create();
    assert!(lib.root(&doc).is_none());
}

#[test]
fn test_at_path() {
    let mut lib = Lib::new();
    let doc = lib.parse("foo:\n  bar: baz").unwrap();
    assert_eq!(lib.text_at(&doc, "/foo/bar"), "baz");
}

#[test]
fn test_emit() {
    let mut lib = Lib::new();
    let doc = lib.parse("foo: bar").unwrap();
    let yaml = lib.emit(&doc);
    assert!(yaml.contains("foo"));
    assert!(yaml.contains("bar"));
}

// ---------------------------------------------------------------------------
// Editing
// ---------------------------------------------------------------------------

#[test]
fn test_set_yaml_at_replace() {
    let mut lib = Lib::new();
    let mut doc = lib.parse("name: Alice").unwrap();
    lib.set(&mut doc, "/name", "'Bob'").unwrap();
    assert_eq!(lib.text_at(&doc, "/name"), "Bob");
}

#[test]
fn test_set_yaml_at_new_key() {
    let mut lib = Lib::new();
    let mut doc = lib.parse("name: Alice").unwrap();
    lib.set(&mut doc, "/age", "30").unwrap();
    assert_eq!(lib.text_at(&doc, "/age"), "30");
    assert_eq!(lib.text_at(&doc, "/name"), "Alice");
}

#[test]
fn test_delete_at() {
    let mut lib = Lib::new();
    let mut doc = lib.parse("name: Alice\nage: 30").unwrap();
    let deleted = lib.delete(&mut doc, "/age").unwrap();
    assert!(deleted);
    assert!(lib.at(&doc, "/age").is_none());
    assert!(lib.at(&doc, "/name").is_some());
}

#[test]
fn test_delete_nonexistent() {
    let mut lib = Lib::new();
    let mut doc = lib.parse("name: Alice").unwrap();
    let deleted = lib.delete(&mut doc, "/nonexistent").unwrap();
    assert!(!deleted);
}

#[test]
fn test_build_and_set_root() {
    let mut lib = Lib::new();
    let mut doc = lib.create();
    let mut ed = doc.edit();
    let root = run(&mut lib, ed.build_from_yaml("name: Alice")).unwrap();
    run(&mut lib, ed.set_root(root)).unwrap();
    assert_eq!(lib.text_at(&doc, "/name"), "Alice");
}

#[test]
fn test_copy_node() {
    let mut lib = Lib::new();
    let src = lib.parse("key: value").unwrap();
    let src_node = run(&mut lib, src.root()).unwrap();
    let mut dest = lib.create();
    let mut ed = dest.edit();
    let copied = run(&mut lib, ed.copy_node(src_node)).unwrap();
    run(&mut lib, ed.set_root(copied)).unwrap();
    assert!(lib.root(&dest).is_some());
}

#[test]
fn test_preserves_quotes() {
    let mut lib = Lib::new();
    let mut doc = lib.parse("name: plain").unwrap();
    lib.set(&mut doc, "/name", "'quoted'").unwrap();
    let output = lib.emit(&doc);
    assert!(output.contains("'quoted'"));
}

#[test]
fn test_set_yaml_at_sequence_first() {
    let mut lib = Lib::new();
    let mut doc = lib.parse("items:\n  - a\n  - b\n  - c").unwrap();
    lib.set(&mut doc, "/items/0", "'replaced'").unwrap();
    assert_eq!(lib.text_at(&doc, "/items/0"), "replaced");
    assert_eq!(lib.text_at(&doc, "/items/1"), "b");
    assert_eq!(lib.text_at(&doc, "/items/2"), "c");
}

#[test]
fn test_set_yaml_at_sequence_middle() {
    let mut lib = Lib::new();
    let mut doc = lib.parse("items:\n  - a\n  - b\n  - c").unwrap();
    lib.set(&mut doc, "/items/1", "replaced").unwrap();
    assert_eq!(lib.text_at(&doc, "/items/0"), "a");
    assert_eq!(lib.text_at(&doc, "/items/1"), "replaced");
    assert_eq!(lib.text_at(&doc, "/items/2"), "c");
}

#[test]
fn test_set_yaml_at_sequence_last() {
    let mut lib = Lib::new();
    let mut doc = lib.parse("items:\n  - a\n  - b\n  - c").unwrap();
    lib.set(&mut doc, "/items/2", "replaced").unwrap();
    assert_eq!(lib.text_at(&doc, "/items/0"), "a");
    assert_eq!(lib.text_at(&doc, "/items/1"), "b");
    assert_eq!(lib.text_at(&doc, "/items/2"), "replaced");
}

#[test]
fn test_set_yaml_at_sequence_negative_index() {
    let mut lib = Lib::new();
    let mut doc = lib.parse("items:\n  - a\n  - b\n  - c").unwrap();
    lib.set(&mut doc, "/items/-1", "last").unwrap();
    assert_eq!(lib.text_at(&doc, "/items/0"), "a");
    assert_eq!(lib.text_at(&doc, "/items/1"), "b");
    assert_eq!(lib.text_at(&doc, "/items/2"), "last");
}

#[test]
fn test_set_yaml_at_sequence_negative_first() {
    let mut lib = Lib::new();
    let mut doc = lib.parse("items:\n  - a\n  - b\n  - c").unwrap();
    lib.set(&mut doc, "/items/-3", "first").unwrap();
    assert_eq!(lib.text_at(&doc, "/items/0"), "first");
    assert_eq!(lib.text_at(&doc, "/items/1"), "b");
    assert_eq!(lib.text_at(&doc, "/items/2"), "c");
}

#[test]
fn test_set_yaml_at_sequence_out_of_bounds() {
    let mut lib = Lib::new();
    let mut doc = lib.parse("items:\n  - a\n  - b").unwrap();
    let result = lib.set(&mut doc, "/items/5", "oob");
    assert!(result.is_err());
}

#[test]
fn test_set_yaml_at_sequence_negative_out_of_bounds() {
    let mut lib = Lib::new();
    let mut doc = lib.parse("items:\n  - a\n  - b").unwrap();
    let result = lib.set(&mut doc, "/items/-5", "oob");
    assert!(result.is_err());
}

#[test]
fn test_set_yaml_at_sequence_complex_value() {
    let mut lib = Lib::new();
    let mut doc = lib.parse("items:\n  - simple").unwrap();
    lib.set(&mut doc, "/items/0", "key: value").unwrap();
    let item = lib.at(&doc, "/items/0").unwrap();
    assert!(lib.is(&doc, item, NodeType::Mapping));
    let value = lib.map_get(&doc, item, "key").unwrap();
    assert_eq!(lib.scalar(&doc, value), "value");
}

#[test]
fn test_set_yaml_at_nested_in_sequence() {
    let mut lib = Lib::new();
    let mut doc = lib.parse("items:\n  - name: alice\n  - name: bob").unwrap();
    lib.set(&mut doc, "/items/0/name", "charlie").unwrap();
    assert_eq!(lib.text_at(&doc, "/items/0/name"), "charlie");
    assert_eq!(lib.text_at(&doc, "/items/1/name"), "bob");
}

#[test]
fn test_seq_append() {
    let mut lib = Lib::new();
    let mut doc = lib.create();
    let mut ed = doc.edit();
    let seq = run(&mut lib, ed.build_sequence()).unwrap();
    let a = run(&mut lib, ed.build_scalar("a")).unwrap();
    let b = run(&mut lib, ed.build_scalar("b")).unwrap();
    run(&mut lib, ed.seq_append(&seq, a)).unwrap();
    run(&mut lib, ed.seq_append(&seq, b)).unwrap();
    run(&mut lib, ed.set_root(seq)).unwrap();
    let root = lib.root(&doc).unwrap();
    assert!(lib.is(&doc, root, NodeType::Sequence));
    let first = lib.seq_get(&doc, root, 0).unwrap();
    let second = lib.seq_get(&doc, root, 1).unwrap();
    assert_eq!(lib.scalar(&doc, first), "a");
    assert_eq!(lib.scalar(&doc, second), "b");
}

#[test]
fn test_map_insert() {
    let mut lib = Lib::new();
    let mut doc = lib.create();
    let mut ed = doc.edit();
    let map = run(&mut lib, ed.build_mapping()).unwrap();
    let k = run(&mut lib, ed.build_scalar("name")).unwrap();
    let v = run(&mut lib, ed.build_scalar("Alice")).unwrap();
    run(&mut lib, ed.map_insert(&map, k, v)).unwrap();
    run(&mut lib, ed.set_root(map)).unwrap();
    assert_eq!(lib.text_at(&doc, "/name"), "Alice");
}

#[test]
fn test_set_tag() {
    let mut lib = Lib::new();
    let mut doc = lib.create();
    let mut ed = doc.edit();
    let node = run(&mut lib, ed.build_scalar("42")).unwrap();
    run(&mut lib, ed.set_tag(&node, "!custom")).unwrap();
    run(&mut lib, ed.set_root(node)).unwrap();
    let root = run(&mut lib, doc.root()).unwrap();
    let span = run(&mut lib, root.tag_bytes()).unwrap().unwrap();
    let tag = lib.nodes[&span.address].tag.clone().unwrap();
    let bytes = &tag.as_bytes()[..span.len];
    assert_eq!(NodeRef::new(root.node, &doc).tag_str(Ok(Some(bytes))).unwrap().unwrap(), "!custom");
    assert_eq!(lib.scalar(&doc, root.node), "42");
}

#[test]
fn test_build_null() {
    let mut lib = Lib::new();
    let mut doc = lib.create();
    let mut ed = doc.edit();
    let node = run(&mut lib, ed.build_null()).unwrap();
    run(&mut lib, ed.set_root(node)).unwrap();
    let root = lib.root(&doc).unwrap();
    assert!(lib.is(&doc, root, NodeType::Scalar));
    let emitted = lib.emit_node(&doc, root);
    assert!(emitted.is_empty() || emitted == "null");
}

fn by_key(lib: &Lib, ka: usize, _va: usize, kb: usize, _vb: usize) -> Ordering {
    lib.text(ka).cmp(lib.text(kb))
}

fn by_value(lib: &Lib, _ka: usize, va: usize, _kb: usize, vb: usize) -> Ordering {
    lib.text(va).cmp(lib.text(vb))
}

fn by_text(lib: &Lib, a: usize, b: usize) -> Ordering {
    lib.text(a).cmp(lib.text(b))
}

fn sort_mapping(lib: &mut Lib, doc: &mut Document, path: &str, order: PairOrder) -> Result<(), Error> {
    lib.pair_order = order;
    run(lib, doc.edit().sort_mapping_at(path))
}

fn sort_sequence(lib: &mut Lib, doc: &mut Document, path: &str) -> Result<(), Error> {
    lib.item_order = by_text;
    run(lib, doc.edit().sort_sequence_at(path))
}

#[test]
fn test_sort_mapping_at_alphabetical() {
    let mut lib = Lib::new();
    let mut doc = lib.parse("{c: 3, a: 1, b: 2}").unwrap();
    sort_mapping(&mut lib, &mut doc, "", by_key).unwrap();
    assert_eq!(lib.entries(&doc, ""), owned(&[("a", "1"), ("b", "2"), ("c", "3")]));
}

#[test]
fn test_sort_mapping_at_by_value() {
    let mut lib = Lib::new();
    let mut doc = lib.parse("{c: 1, a: 3, b: 2}").unwrap();
    sort_mapping(&mut lib, &mut doc, "", by_value).unwrap();
    assert_eq!(lib.entries(&doc, ""), owned(&[("c", "1"), ("b", "2"), ("a", "3")]));
}

#[test]
fn test_sort_mapping_at_non_recursive() {
    let mut lib = Lib::new();
    let mut doc = lib.parse("{b: 1, a: {z: 1, y: 2}}").unwrap();
    sort_mapping(&mut lib, &mut doc, "", by_key).unwrap();
    assert_eq!(lib.text_at(&doc, "/b"), "1");
    let a = lib.at(&doc, "/a").unwrap();
    assert!(lib.is(&doc, a, NodeType::Mapping));
    assert_eq!(lib.entries(&doc, "/a"), owned(&[("z", "1"), ("y", "2")]));
}

#[test]
fn test_sort_at_recursive() {
    let mut lib = Lib::new();
    let mut doc = lib.parse("{b: 1, a: {z: 1, y: 2}}").unwrap();
    lib.pair_order = by_key;
    run(&mut lib, doc.edit().sort_at("")).unwrap();
    assert_eq!(lib.text_at(&doc, "/b"), "1");
    let a = lib.at(&doc, "/a").unwrap();
    assert!(lib.is(&doc, a, NodeType::Mapping));
    assert_eq!(lib.entries(&doc, "/a"), owned(&[("y", "2"), ("z", "1")]));
}

#[test]
fn test_sort_mapping_at_nested_path() {
    let mut lib = Lib::new();
    let mut doc = lib.parse("outer:\n  c: 3\n  a: 1\n  b: 2\n").unwrap();
    sort_mapping(&mut lib, &mut doc, "/outer", by_key).unwrap();
    assert_eq!(lib.entries(&doc, "/outer"), owned(&[("a", "1"), ("b", "2"), ("c", "3")]));
}

#[test]
fn test_sort_mapping_at_error_on_non_mapping() {
    let mut lib = Lib::new();
    let mut doc = lib.parse("[1, 2, 3]").unwrap();
    assert!(sort_mapping(&mut lib, &mut doc, "", by_key).is_err());
}

#[test]
fn test_sort_mapping_at_empty_mapping() {
    let mut lib = Lib::new();
    let mut doc = lib.parse("{}").unwrap();
    sort_mapping(&mut lib, &mut doc, "", by_key).unwrap();
    let root = run(&mut lib, doc.root()).unwrap();
    assert_eq!(run(&mut lib, root.map_len()).unwrap(), 0);
}

#[test]
fn test_sort_mapping_at_single_entry() {
    let mut lib = Lib::new();
    let mut doc = lib.parse("{a: 1}").unwrap();
    sort_mapping(&mut lib, &mut doc, "", by_key).unwrap();
    assert_eq!(lib.entries(&doc, ""), owned(&[("a", "1")]));
}

#[test]
fn test_sort_preserves_comments() {
    let mut lib = Lib::new();
    let mut doc =
        lib.parse("# top comment\nc: 3 # c comment\na: 1 # a comment\nb: 2\n").unwrap();
    sort_mapping(&mut lib, &mut doc, "", by_key).unwrap();
    let output = lib.emit(&doc);
    assert_eq!(lib.entries(&doc, ""), owned(&[("a", "1"), ("b", "2"), ("c", "3")]));
    assert!(output.contains("a: 1 # a comment"), "expected 'a: 1 # a comment' in:\n{output}");
    assert!(output.contains("c: 3 # c comment"), "expected 'c: 3 # c comment' in:\n{output}");
}

#[test]
fn test_sort_sequence_at_alphabetical() {
    let mut lib = Lib::new();
    let mut doc = lib.parse("[c, a, b]").unwrap();
    sort_sequence(&mut lib, &mut doc, "").unwrap();
    assert_eq!(lib.items(&doc, ""), strings(&["a", "b", "c"]));
}

#[test]
fn test_sort_sequence_at_preserves_flow_style() {
    let mut lib = Lib::new();
    let mut doc = lib.parse("items: [c, a, b]\n").unwrap();
    sort_sequence(&mut lib, &mut doc, "/items").unwrap();
    assert_eq!(lib.items(&doc, "/items"), strings(&["a", "b", "c"]));
    let output = Document::display(emitted_text(run(&mut lib, doc.emit())));
    assert!(output.contains('['), "expected flow brackets in:\n{output}");
    assert!(!output.contains("\n- "), "expected no block-style dashes in:\n{output}");
}

#[test]
fn test_sort_sequence_at_block_style() {
    let mut lib = Lib::new();
    let mut doc = lib.parse("items:\n  - cherry\n  - apple\n  - banana\n").unwrap();
    sort_sequence(&mut lib, &mut doc, "/items").unwrap();
    assert_eq!(lib.items(&doc, "/items"), strings(&["apple", "banana", "cherry"]));
}

#[test]
fn test_sort_sequence_at_already_sorted() {
    let mut lib = Lib::new();
    let mut doc = lib.parse("[a, b, c]").unwrap();
    sort_sequence(&mut lib, &mut doc, "").unwrap();
    assert_eq!(lib.items(&doc, ""), strings(&["a", "b", "c"]));
}

#[test]
fn test_sort_sequence_at_single_item() {
    let mut lib = Lib::new();
    let mut doc = lib.parse("[a]").unwrap();
    sort_sequence(&mut lib, &mut doc, "").unwrap();
    assert_eq!(lib.items(&doc, ""), strings(&["a"]));
}

#[test]
fn test_sort_sequence_at_empty() {
    let mut lib = Lib::new();
    let mut doc = lib.parse("[]").unwrap();
    sort_sequence(&mut lib, &mut doc, "").unwrap();
    let root = run(&mut lib, doc.root()).unwrap();
    assert_eq!(run(&mut lib, root.seq_len()).unwrap(), 0);
}

#[test]
fn test_sort_sequence_at_error_on_non_sequence() {
    let mut lib = Lib::new();
    let mut doc = lib.parse("{a: 1}").unwrap();
    assert!(sort_sequence(&mut lib, &mut doc, "").is_err());
}

#[test]
fn test_sort_sequence_at_preserves_styles() {
    let mut lib = Lib::new();
    let mut doc = lib.parse(r#"['c', "b", a]"#).unwrap();
    sort_sequence(&mut lib, &mut doc, "").unwrap();
    assert_eq!(lib.items(&doc, ""), strings(&["a", "b", "c"]));
    let output = lib.emit(&doc);
    assert!(output.contains(r#""b""#), "expected double-quoted b in:\n{output}");
    assert!(output.contains("'c'"), "expected single-quoted c in:\n{output}");
}

// ---------------------------------------------------------------------------
// Emitting
// ---------------------------------------------------------------------------

#[test]
fn emit_events_identity() {
    let mut lib = Lib::new();
    let doc = lib.parse("foo: bar").unwrap();
    let normal = lib.emit(&doc);
    let events = lib.events(doc.emitter());
    assert_eq!(normal, events_to_string(&events));
}

#[test]
fn emit_events_receives_write_types() {
    let mut lib = Lib::new();
    let doc = lib.parse("key: value").unwrap();
    let events = lib.events(doc.emitter());
    let types: Vec<WriteType> = events.iter().map(|e| e.write_type).collect();
    assert!(types.contains(&WriteType::PlainScalarKey));
    assert!(types.contains(&WriteType::Linebreak));
}

#[test]
fn emit_events_handles_block_scalar() {
    let mut lib = Lib::new();
    let doc = lib.parse("run: |\n  echo hello\n  echo world").unwrap();
    let events = lib.events(doc.emitter());
    assert!(events.iter().any(|e| e.write_type == WriteType::LiteralScalar));
}

#[test]
fn emit_events_preserves_comments() {
    let mut lib = Lib::new();
    let doc = lib.parse("# top comment\nfoo: bar # inline").unwrap();
    let events = lib.events(doc.emitter());
    assert!(events.iter().any(|e| e.write_type == WriteType::Comment));
    let text = events_to_string(&events);
    assert!(text.contains("# top comment"));
    assert!(text.contains("# inline"));
}

#[test]
fn mode_json_produces_braces() {
    let mut lib = Lib::new();
    let doc = lib.parse("foo: bar\nbaz: 1").unwrap();
    let events = lib.events(doc.emitter().mode(EmitMode::Json));
    let json = events_to_string(&events);
    assert!(json.contains('{'), "expected JSON object, got: {json}");
}

#[test]
fn indent_changes_nesting() {
    let mut lib = Lib::new();
    let doc = lib.parse("parent:\n  child: value").unwrap();
    let events = lib.events(doc.emitter().mode(EmitMode::Block).indent(4));
    let out = events_to_string(&events);
    assert!(out.contains("    child"), "expected 4-space indent, got:\n{out}");
}

#[test]
fn sort_keys_reorders() {
    let mut lib = Lib::new();
    let doc = lib.parse("z: 1\na: 2\nm: 3").unwrap();
    let events = lib.events(doc.emitter().sort_keys(true));
    let out = events_to_string(&events);
    let a_pos = out.find("a:").expect("missing 'a:'");
    let m_pos = out.find("m:").expect("missing 'm:'");
    let z_pos = out.find("z:").expect("missing 'z:'");
    assert!(a_pos < m_pos, "a should come before m");
    assert!(m_pos < z_pos, "m should come before z");
}

#[test]
fn builder_chaining_compiles() {
    let mut lib = Lib::new();
    let doc = lib.parse("key: val").unwrap();
    let _events = lib.events(
        doc.emitter()
            .mode(EmitMode::Block)
            .indent(2)
            .width(120)
            .sort_keys(false)
            .output_comments(true)
            .doc_start_mark(Toggle::Off)
            .doc_end_mark(Toggle::Auto),
    );
}

#[test]
fn no_ending_newline_strips_trailing() {
    let mut lib = Lib::new();
    let doc = lib.parse("foo: bar").unwrap();
    let events = lib.events(doc.emitter().no_ending_newline(true));
    let out = events_to_string(&events);
    assert!(!out.ends_with('\n'), "expected no trailing newline, got: {out:?}");
}

// ---------------------------------------------------------------------------
// Paths and nodes
// ---------------------------------------------------------------------------

fn path(yaml: &str, path: &str) -> String {
    let mut lib = Lib::new();
    let doc = lib.parse(yaml).unwrap();
    let root = lib.root(&doc).unwrap();
    if path.is_empty() {
        lib.emit_node(&doc, root)
    } else {
        let node = run(&mut lib, NodeRef::new(root, &doc).at_path(path)).unwrap().node;
        lib.emit_node(&doc, node)
    }
}

#[test]
fn test_simple_hash() {
    assert_eq!(
        path(
            r#"
        foo: bar
        "#,
            "/foo"
        ),
        "bar"
    );
}

#[test]
fn test_no_path() {
    let result = path(
        r#"
        foo: bar
        "#,
        "",
    );
    assert_eq!(result, "foo: bar");
}

#[test]
fn test_trap() {
    assert_eq!(
        path(
            r#"
        foo: "bar: wiz"
        "#,
            "/foo"
        ),
        "\"bar: wiz\""
    );
}

#[test]
fn test_scalar_str() {
    let mut lib = Lib::new();
    let doc = lib.parse("key: value").unwrap();
    assert_eq!(lib.text_at(&doc, "/key"), "value");
}

#[test]
fn test_is_quoted() {
    let mut lib = Lib::new();
    let doc = lib.parse("plain: value\nquoted: 'value'").unwrap();
    let plain = run(&mut lib, doc.at_path("/plain")).unwrap();
    let quoted = run(&mut lib, doc.at_path("/quoted")).unwrap();
    assert!(!run(&mut lib, plain.is_quoted()));
    assert!(run(&mut lib, quoted.is_quoted()));
}

#[test]
fn test_navigation() {
    let mut lib = Lib::new();
    let doc = lib.parse("a:\n  b:\n    c: deep").unwrap();
    let root = run(&mut lib, doc.root()).unwrap();
    let node = run(&mut lib, root.at_path("/a/b/c")).unwrap().node;
    assert_eq!(lib.scalar(&doc, node), "deep");
}

#[test]
fn test_seq_len() {
    let mut lib = Lib::new();
    let doc = lib.parse("[1, 2, 3]").unwrap();
    let root = run(&mut lib, doc.root()).unwrap();
    assert_eq!(run(&mut lib, root.seq_len()).unwrap(), 3);
}

#[test]
fn test_map_len() {
    let mut lib = Lib::new();
    let doc = lib.parse("a: 1\nb: 2").unwrap();
    let root = run(&mut lib, doc.root()).unwrap();
    assert_eq!(run(&mut lib, root.map_len()).unwrap(), 2);
}

// ---------------------------------------------------------------------------
// Streams
// ---------------------------------------------------------------------------

#[test]
fn test_parse_single_document() {
    let mut lib = Lib::new();
    let parser = lib.stream("foo: bar");
    let results = lib.collect(parser.doc_iter());
    let docs: Vec<Document> = results.into_iter().filter_map(|r| r.ok()).collect();
    assert_eq!(docs.len(), 1);
    let root = run(&mut lib, docs[0].root()).unwrap();
    let foo = run(&mut lib, root.at_path("/foo")).unwrap().node;
    assert_eq!(lib.scalar(&docs[0], foo), "bar");
}

#[test]
fn test_parse_multiple_documents() {
    let mut lib = Lib::new();
    let parser = lib.stream("---\ndoc1: v1\n---\ndoc2: v2\n---\ndoc3: v3");
    let results = lib.collect(parser.doc_iter());
    let docs: Vec<Document> = results.into_iter().filter_map(|r| r.ok()).collect();
    assert_eq!(docs.len(), 3);
    assert_eq!(lib.text_at(&docs[0], "/doc1"), "v1");
    assert_eq!(lib.text_at(&docs[1], "/doc2"), "v2");
    assert_eq!(lib.text_at(&docs[2], "/doc3"), "v3");
}

#[test]
fn test_parse_empty_stream() {
    let mut lib = Lib::new();
    let parser = lib.stream("");
    let docs = lib.collect(parser.doc_iter());
    assert!(docs.is_empty());
}

#[test]
fn test_documents_outlive_parser() {
    let mut lib = Lib::new();
    let docs: Vec<Document>;
    {
        let parser = lib.stream("key: value");
        let results = lib.collect(parser.doc_iter());
        docs = results.into_iter().filter_map(|r| r.ok()).collect();
        lib.let_go(parser.inner);
    }
    assert_eq!(docs.len(), 1);
    assert_eq!(lib.parsers.len(), 1);
    let root = run(&mut lib, docs[0].root()).unwrap();
    let key = run(&mut lib, root.at_path("/key")).unwrap().node;
    assert_eq!(lib.scalar(&docs[0], key), "value");
}

#[test]
fn test_parse_error_yields_err() {
    let mut lib = Lib::new();
    let parser = lib.stream("key: value\n  bad indent");
    let results = lib.collect(parser.doc_iter());
    assert!(!results.is_empty());
    let has_error = results.iter().any(|r| r.is_err());
    if has_error {
        let err = results.iter().find(|r| r.is_err()).unwrap();
        assert!(err.is_err());
    }
}

#[test]
fn test_parse_unclosed_bracket_error() {
    let mut lib = Lib::new();
    let parser = lib.stream("[unclosed");
    let results = lib.collect(parser.doc_iter());
    let has_error = results.iter().any(|r| r.is_err());
    assert!(has_error, "unclosed bracket should produce parse error");
}

// ---------------------------------------------------------------------------
// What the operations promise beyond single results
// ---------------------------------------------------------------------------

fn error_text(result: Result<(), Error>) -> String {
    match result {
        Ok(()) => "ok".to_string(),
        Err(e) => describe(e),
    }
}

fn describe(e: Error) -> String {
    match e {
        Error::Ffi(m) => format!("ffi: {m}"),
        Error::Parse(m) => format!("parse: {m}"),
        Error::ParseError(p) => format!("at {}:{}: {}", p.line, p.column, p.message),
        Error::Io(m) => format!("io: {m}"),
        Error::TypeMismatch { expected, got } => format!("expected {expected}, got {got}"),
        Error::ScalarTooLarge(n) => format!("too large: {n}"),
        Error::Utf8 => "utf8".to_string(),
    }
}

fn failure<T>(result: Result<T, Error>) -> String {
    match result {
        Ok(_) => "ok".to_string(),
        Err(e) => describe(e),
    }
}

#[test]
fn set_refusals_have_their_own_errors() {
    let mut lib = Lib::new();
    let mut doc = lib.parse("items: [a, b]\nname: x").unwrap();
    let before = lib.nodes.len();
    assert_eq!(error_text(lib.set(&mut doc, "/items/2", "v")), "ffi: sequence index out of bounds");
    assert_eq!(error_text(lib.set(&mut doc, "/items/-3", "v")), "ffi: sequence index out of bounds");
    assert_eq!(error_text(lib.set(&mut doc, "/items/one", "v")), "ffi: invalid sequence index");
    assert_eq!(error_text(lib.set(&mut doc, "/items/", "v")), "ffi: invalid sequence index");
    assert_eq!(
        error_text(lib.set(&mut doc, "/items/2147483648", "v")),
        "ffi: invalid sequence index"
    );
    assert_eq!(
        error_text(lib.set(&mut doc, "/name/key", "v")),
        "expected mapping or sequence, got scalar"
    );
    assert_eq!(error_text(lib.set(&mut doc, "/none/key", "v")), "ffi: parent path not found");
    assert_eq!(
        error_text(lib.set(&mut doc, "/name", "[v")),
        "at 1:3: did not find expected ',' or closing bracket"
    );
    assert_eq!(lib.nodes.len(), before);
    let mut empty = lib.create();
    assert_eq!(error_text(lib.set(&mut empty, "/key", "v")), "ffi: document has no root");
    assert_eq!(lib.nodes.len(), before);
    assert!(lib.idle());
}

#[test]
fn set_failures_of_the_library_leave_the_document_alone() {
    for (name, path, message) in [
        ("malloc", "/name", "ffi: malloc failed"),
        ("node_build", "/name", "parse: fy_node_build_from_malloc_string failed"),
        ("set_root", "/", "ffi: fy_document_set_root failed"),
        ("pair_set_value", "/name", "ffi: fy_node_pair_set_value failed"),
        ("create_scalar", "/new", "ffi: fy_node_create_scalar_copy failed"),
        ("map_append", "/new", "ffi: fy_node_mapping_append failed"),
    ] {
        let mut lib = Lib::failing(&[name]);
        lib.failing.clear();
        let mut doc = lib.parse("name: x\nitems: [a]").unwrap();
        let before = (lib.nodes.len(), lib.emit(&doc));
        lib.failing = vec![name];
        assert_eq!(error_text(lib.set(&mut doc, path, "v")), message);
        assert_eq!((lib.nodes.len(), lib.emit(&doc)), before, "{name}");
        assert!(lib.idle(), "{name}");
        assert_eq!(lib.docs[&doc.ptr].diag, 0);
    }
}

#[test]
fn set_on_a_sequence_reports_late_failures() {
    for (name, path, message) in [
        ("seq_append", "/1", "ffi: fy_node_sequence_append failed"),
        ("seq_insert_before", "/0", "ffi: fy_node_sequence_insert_before failed"),
    ] {
        let mut lib = Lib::new();
        let mut doc = lib.parse("[a, b]").unwrap();
        lib.failing = vec![name];
        assert_eq!(error_text(lib.set(&mut doc, path, "v")), message);
        assert_eq!(lib.nodes.len(), 2);
    }
    let mut lib = Lib::new();
    let mut doc = lib.parse("[a, b]").unwrap();
    lib.failing = vec!["seq_remove"];
    assert_eq!(
        error_text(lib.set(&mut doc, "/0", "v")),
        "ffi: fy_node_sequence_remove failed"
    );
    lib.failing = vec!["seq_get"];
    assert_eq!(error_text(lib.set(&mut doc, "/0", "v")), "ffi: sequence element not found");
    assert_eq!(lib.items(&doc, ""), strings(&["a", "b"]));
    assert_eq!(lib.nodes.len(), 3);
}

#[test]
fn a_diagnostic_without_a_collector_is_the_fallback() {
    let mut lib = Lib::new();
    let mut doc = lib.parse("name: x").unwrap();
    lib.failing = vec!["diag_create"];
    assert_eq!(
        error_text(lib.set(&mut doc, "/name", "[v")),
        "parse: fy_node_build_from_malloc_string failed"
    );
    assert_eq!(
        failure(lib.parse("[v")),
        "parse: fy_document_build_from_malloc_string failed"
    );
    let kept = run_owned(&mut lib, Document::from_string("[v".to_string()));
    assert_eq!(failure(kept), "parse: fy_document_build_from_string failed");
    assert!(lib.set(&mut doc, "/name", "y").is_ok());
    assert!(lib.parse("a: 1").is_ok());
    assert!(lib.idle());
}

#[test]
fn the_collector_of_the_document_is_put_back() {
    let mut lib = Lib::new();
    let mut doc = lib.parse("name: x").unwrap();
    lib.docs.get_mut(&doc.ptr).unwrap().diag = 5;
    lib.set(&mut doc, "/name", "y").unwrap();
    assert_eq!(lib.docs[&doc.ptr].diag, 5);
    assert!(lib.set(&mut doc, "/name", "{y").is_err());
    assert_eq!(lib.docs[&doc.ptr].diag, 5);
}

#[test]
fn a_set_frees_what_it_replaces() {
    let mut lib = Lib::new();
    let mut doc = lib.parse("a: {b: [1, 2, 3]}\nc: 1").unwrap();
    lib.set(&mut doc, "/a", "0").unwrap();
    assert_eq!(lib.nodes.len(), 5);
    lib.set(&mut doc, "", "[x, y]").unwrap();
    assert_eq!(lib.nodes.len(), 3);
    assert_eq!(lib.items(&doc, ""), strings(&["x", "y"]));
    lib.set(&mut doc, "/+1", "z").unwrap();
    assert_eq!(lib.items(&doc, ""), strings(&["x", "z"]));
}

#[test]
fn delete_outcomes() {
    let mut lib = Lib::new();
    let mut doc = lib.parse("items: [a, b, c]\nname: {x: 1}").unwrap();
    assert!(lib.delete(&mut doc, "/items/-1").unwrap());
    assert_eq!(lib.items(&doc, "/items"), strings(&["a", "b"]));
    assert!(lib.delete(&mut doc, "/items/0").unwrap());
    assert_eq!(lib.items(&doc, "/items"), strings(&["b"]));
    assert!(!lib.delete(&mut doc, "/items/7").unwrap());
    assert!(!lib.delete(&mut doc, "/nowhere/x").unwrap());
    assert_eq!(failure(lib.delete(&mut doc, "")), "ffi: cannot delete root via delete_at");
    assert_eq!(failure(lib.delete(&mut doc, "/")), "ffi: cannot delete root via delete_at");
    assert!(!lib.delete(&mut doc, "/items/x").unwrap());
    assert!(!lib.delete(&mut doc, "/items/2147483648").unwrap());
    assert!(!lib.delete(&mut doc, "/name/x/y").unwrap());
    assert_eq!(lib.items(&doc, "/items"), strings(&["b"]));
    assert_eq!(lib.text_at(&doc, "/name/x"), "1");
    assert!(lib.delete(&mut doc, "name").unwrap());
    assert!(lib.at(&doc, "/name").is_none());
    assert_eq!(lib.nodes.len(), 4);
    let mut empty = lib.create();
    assert!(!lib.delete(&mut empty, "/x").unwrap());
}

#[test]
fn deleting_what_is_not_there_changes_nothing() {
    let mut lib = Lib::new();
    let mut doc = lib.parse("items:\n  - a\n  - b").unwrap();
    assert!(!lib.delete(&mut doc, "/items/foo").unwrap());
    assert_eq!(lib.items(&doc, "/items"), strings(&["a", "b"]));
    let mut doc = lib.parse("name: Alice").unwrap();
    assert!(!lib.delete(&mut doc, "/name/first").unwrap());
    assert_eq!(lib.text_at(&doc, "/name"), "Alice");
}

#[test]
fn handles_that_are_refused_are_freed() {
    let mut lib = Lib::new();
    let mut doc = lib.parse("name: x").unwrap();
    let before = lib.nodes.len();
    let mut ed = doc.edit();
    let scalar = run(&mut lib, ed.build_scalar("s")).unwrap();
    let item = run(&mut lib, ed.build_scalar("i")).unwrap();
    assert_eq!(
        error_text(run(&mut lib, ed.seq_append(&scalar, item))),
        "ffi: fy_node_sequence_append failed"
    );
    let key = run(&mut lib, ed.build_scalar("k")).unwrap();
    let value = run(&mut lib, ed.build_scalar("v")).unwrap();
    lib.calls.clear();
    assert_eq!(
        error_text(run(&mut lib, ed.map_insert(&scalar, key, value))),
        "ffi: fy_node_mapping_append failed"
    );
    assert_eq!(lib.calls, vec!["map_append", "node_free", "node_free"]);
    let item = run(&mut lib, ed.build_scalar("i")).unwrap();
    assert_eq!(
        error_text(run(&mut lib, ed.seq_append_at("/name", item))),
        "expected sequence, got non-sequence"
    );
    let item = run(&mut lib, ed.build_scalar("i")).unwrap();
    assert_eq!(
        error_text(run(&mut lib, ed.seq_append_at("/none", item))),
        "ffi: path not found"
    );
    let call = scalar.release().unwrap();
    lib.perform(&call);
    assert_eq!(lib.nodes.len(), before);
}

#[test]
fn an_inserted_handle_has_nothing_to_release() {
    let mut handle = RawNodeHandle::try_from_ptr(16, "null").unwrap();
    assert!(handle.release().is_some());
    handle.mark_inserted();
    assert!(handle.release().is_none());
    assert!(RawNodeHandle::try_from_ptr(0, "null").is_err());
}

#[test]
fn nodes_that_cannot_be_made_are_reported() {
    let mut lib = Lib::new();
    let mut doc = lib.parse("name: x").unwrap();
    let root = lib.root(&doc).unwrap();
    let other = lib.parse("a: 1").unwrap();
    lib.failing = vec!["create_scalar", "create_sequence", "create_mapping", "copy", "set_tag"];
    let mut ed = doc.edit();
    assert_eq!(
        failure(run(&mut lib, ed.build_scalar("s"))),
        "ffi: fy_node_create_scalar_copy failed"
    );
    assert_eq!(
        failure(run(&mut lib, ed.build_sequence())),
        "ffi: fy_node_create_sequence failed"
    );
    assert_eq!(
        failure(run(&mut lib, ed.build_mapping())),
        "ffi: fy_node_create_mapping failed"
    );
    let source = NodeRef::new(root, &other);
    assert_eq!(failure(run(&mut lib, ed.copy_node(source))), "ffi: fy_node_copy failed");
    let node = run(&mut lib, ed.build_from_yaml("v")).unwrap();
    assert_eq!(failure(run(&mut lib, ed.set_tag(&node, "!t"))), "ffi: fy_node_set_tag failed");
}

#[test]
fn append_at_and_styles() {
    let mut lib = Lib::new();
    let mut doc = lib.parse("items: [a]").unwrap();
    let mut ed = doc.edit();
    let item = run(&mut lib, ed.build_scalar("b")).unwrap();
    let style = run(&mut lib, ed.set_style(&item, NodeStyle::DoubleQuoted));
    assert_eq!(style, NodeStyle::DoubleQuoted);
    run(&mut lib, ed.seq_append_at("/items", item)).unwrap();
    let while_editing = run(&mut lib, ed.at_path("/items/1")).unwrap().node;
    assert_eq!(run(&mut lib, ed.root()).unwrap().node, lib.docs[&ed.doc_ptr()].root);
    assert_eq!(lib.items(&doc, "/items"), strings(&["a", "b"]));
    let node = run(&mut lib, doc.at_path("/items/1")).unwrap();
    assert_eq!(node.node, while_editing);
    assert_eq!(run(&mut lib, node.style()), NodeStyle::DoubleQuoted);
    assert!(run(&mut lib, node.is_non_plain()));
    assert_eq!(lib.emit(&doc), "items: [a, \"b\"]\n");
}

#[test]
fn sort_failures_have_their_own_errors() {
    let mut lib = Lib::new();
    let mut doc = lib.parse("{a: [1]}").unwrap();
    lib.failing = vec!["map_sort", "node_sort", "seq_sort"];
    let mut ed = doc.edit();
    assert_eq!(
        failure(run(&mut lib, ed.sort_mapping_at(""))),
        "ffi: fy_node_mapping_sort failed"
    );
    assert_eq!(failure(run(&mut lib, ed.sort_at(""))), "ffi: fy_node_sort failed");
    assert_eq!(
        failure(run(&mut lib, ed.sort_sequence_at("/a"))),
        "ffi: fy_node_sequence_sort failed"
    );
    assert_eq!(
        failure(run(&mut lib, ed.sort_sequence_at(""))),
        "expected sequence, got non-sequence"
    );
    assert_eq!(
        failure(run(&mut lib, ed.sort_mapping_at("/a"))),
        "expected mapping, got non-mapping"
    );
    assert_eq!(failure(run(&mut lib, ed.sort_at("/b"))), "ffi: path not found");
}

#[test]
fn documents_keep_their_input() {
    let mut lib = Lib::new();
    let doc = run_owned(&mut lib, Document::from_string("name: Alice\nage: 30".to_string())).unwrap();
    assert_eq!(lib.text_at(&doc, "/name"), "Alice");
    assert!(matches!(&doc.input, InputOwnership::OwnedString(s) if s == "name: Alice\nage: 30"));
    let bytes = run_owned(&mut lib, Document::from_bytes(b"name: Alice\nage: 30".to_vec())).unwrap();
    assert_eq!(lib.text_at(&bytes, "/age"), "30");
    assert!(matches!(&bytes.input, InputOwnership::OwnedBytes(b) if b.len() == 19));
    let copied = lib.parse("a: 1").unwrap();
    assert!(matches!(copied.input, InputOwnership::LibfyamlOwned));
    let made = lib.create();
    assert!(matches!(made.input, InputOwnership::NoInput));
    for doc in [doc, bytes, copied, made] {
        assert!(matches!(doc.release(), Call::DocumentDestroy { .. }));
        lib.close(doc);
    }
    assert!(lib.settled());
}

#[test]
fn empty_and_broken_input_is_refused() {
    let mut lib = Lib::new();
    assert_eq!(failure(lib.parse("")), "parse: empty input");
    assert_eq!(
        failure(run_owned(&mut lib, Document::from_string(String::new()))),
        "parse: empty input"
    );
    assert_eq!(
        failure(run_owned(&mut lib, Document::from_bytes(Vec::new()))),
        "parse: empty input"
    );
    assert!(lib.calls.is_empty());
    assert_eq!(
        failure(lib.parse("a: 1\nb: [x")),
        "at 2:3: did not find expected ',' or closing bracket"
    );
    assert_eq!(
        failure(run_owned(&mut lib, Document::from_string("[x".to_string()))),
        "at 1:3: did not find expected ',' or closing bracket"
    );
    lib.failing = vec!["malloc"];
    assert_eq!(failure(lib.parse("a: 1")), "ffi: malloc failed");
    lib.failing = vec!["document_create"];
    assert_eq!(failure(run(&mut lib, Document::new())), "ffi: fy_document_create returned null");
    assert!(lib.settled());
}

#[test]
fn streams_release_everything() {
    let mut lib = Lib::new();
    let parser = lib.stream("---\na: 1\n---\nb: 2");
    let results = lib.collect(parser.doc_iter());
    lib.let_go(parser.inner);
    let docs: Vec<Document> = results.into_iter().map(|r| r.ok().unwrap()).collect();
    assert_eq!(docs.len(), 2);
    for doc in docs {
        assert!(matches!(doc.release(), Call::ParseDocumentDestroy { .. }));
        assert_eq!(lib.parsers.len(), 1);
        lib.close(doc);
    }
    assert!(lib.settled());
}

#[test]
fn a_stream_that_ended_stays_ended() {
    let mut lib = Lib::new();
    let parser = lib.stream("---\na: 1\n---\n[b\n---\nc: 3");
    let (iter, first) = run(&mut lib, parser.doc_iter().next());
    assert!(first.unwrap().is_ok());
    assert!(!iter.done);
    let (iter, second) = run(&mut lib, iter.next());
    assert_eq!(
        failure(second.unwrap()),
        "at 1:3: did not find expected ',' or closing bracket"
    );
    assert!(iter.done);
    lib.calls.clear();
    let (iter, third) = run(&mut lib, iter.next());
    assert!(third.is_none());
    assert!(iter.done);
    assert!(lib.calls.is_empty());
}

#[test]
fn a_stream_error_without_a_collector_is_the_fallback() {
    let mut lib = Lib::failing(&["diag_create"]);
    let parser = lib.stream("[b");
    let (_, result) = run(&mut lib, parser.doc_iter().next());
    assert_eq!(failure(result.unwrap()), "parse: stream parse error");
}

#[test]
fn opening_a_stream_fails_without_a_trace() {
    for (name, message) in [
        ("parser_create", "ffi: fy_parser_create returned null"),
        ("malloc", "ffi: malloc failed"),
        ("parser_set_string", "ffi: fy_parser_set_malloc_string failed"),
    ] {
        let mut lib = Lib::failing(&[name]);
        assert_eq!(failure(run(&mut lib, FyParser::from_string("a: 1"))), message);
        assert!(lib.settled(), "{name}");
    }
    for (name, message) in [
        ("parser_create", "ffi: fy_parser_create returned null"),
        ("dup", "io: dup(stdin) failed"),
        ("fdopen", "io: fdopen failed"),
        ("setvbuf", "io: setvbuf failed"),
        ("parser_set_fp", "ffi: fy_parser_set_input_fp failed"),
    ] {
        let mut lib = Lib::failing(&[name]);
        assert_eq!(failure(run(&mut lib, FyParser::from_stdin())), message);
        assert!(lib.settled(), "{name}");
        let mut lib = Lib::failing(&[name]);
        assert_eq!(failure(run(&mut lib, Document::from_stdin())), message);
        assert!(lib.settled(), "{name}");
    }
}

#[test]
fn standard_input_is_line_buffered_on_demand() {
    let mut lib = Lib::new();
    lib.stdin = "---\na: 1\n---\nb: 2".to_string();
    let parser = run(&mut lib, FyParser::from_stdin_with_line_buffer(false)).ok().unwrap();
    assert!(!lib.calls.contains(&"setvbuf"));
    assert_eq!(lib.collect(parser.doc_iter()).len(), 2);
    let _again = run(&mut lib, FyParser::from_stdin_with_line_buffer(true)).ok().unwrap();
    assert!(lib.calls.contains(&"setvbuf"));
}

#[test]
fn the_first_document_of_standard_input() {
    let mut lib = Lib::new();
    lib.stdin = "---\na: 1\n---\nb: 2".to_string();
    let doc = run(&mut lib, Document::from_stdin()).unwrap();
    assert_eq!(lib.text_at(&doc, "/a"), "1");
    lib.close(doc);
    assert!(lib.settled());
    lib.stdin = String::new();
    assert_eq!(
        failure(run(&mut lib, Document::from_stdin())),
        "parse: no document in stdin stream"
    );
    lib.stdin = "[x".to_string();
    assert_eq!(
        failure(run(&mut lib, Document::from_stdin())),
        "at 1:3: did not find expected ',' or closing bracket"
    );
    assert!(lib.settled());
}

#[test]
fn emission_failures() {
    let mut lib = Lib::new();
    let doc = lib.parse("a: 1").unwrap();
    let root = run(&mut lib, doc.root()).unwrap();
    lib.failing =
        vec!["emit_document_to_string", "emit_node_to_string", "emitter_create", "version"];
    let text = emitted_text(run(&mut lib, doc.emit()));
    assert_eq!(Document::display(text), "<Document emit error>");
    let text = emitted_text(run(&mut lib, root.emit()));
    assert_eq!(NodeRef::display(text), "<NodeRef emit error>");
    assert_eq!(
        failure(run(&mut lib, doc.emit())),
        "ffi: fy_emit_document_to_string returned null"
    );
    assert_eq!(
        failure(run(&mut lib, root.emit())),
        "ffi: fy_emit_node_to_string returned null"
    );
    assert_eq!(
        failure(run(&mut lib, doc.emitter().emit_events())),
        "ffi: fy_emitter_create returned null"
    );
    assert_eq!(
        failure(run(&mut lib, fyaml::get_c_version())),
        "ffi: fy_library_version returned null"
    );
    lib.failing = vec!["emit_document"];
    assert_eq!(
        failure(run(&mut lib, doc.emitter().emit_events())),
        "ffi: fy_emit_document failed"
    );
    assert!(lib.idle());
    lib.failing.clear();
    assert_eq!(emitted_text(run(&mut lib, fyaml::get_c_version())).unwrap(), "0.9.3");
}

#[test]
fn the_extended_configuration_is_used_on_demand() {
    let mut lib = Lib::new();
    let doc = lib.parse("a: [1]").unwrap();
    lib.events(doc.emitter().indented_seq_in_map(true));
    lib.events(doc.emitter().preserve_flow_layout(true));
    lib.events(doc.emitter().preserve_flow_layout(true).preserve_flow_layout(false));
    match doc.emitter().indented_seq_in_map(true).emit_events() {
        Step::Ask(_, Call::EmitterCreate { flags, extended }) => {
            assert_eq!(flags, 2 | 128);
            assert!(extended.unwrap().indented_seq_in_map);
            assert!(!extended.unwrap().preserve_flow_layout);
        }
        _ => unreachable!(),
    }
}

#[test]
fn reading_containers() {
    let mut lib = Lib::new();
    let doc = lib.parse("items: [a, b, c]\nmap: {k: v}").unwrap();
    let items = lib.at(&doc, "/items").unwrap();
    let map = lib.at(&doc, "/map").unwrap();
    let last = lib.seq_get(&doc, items, -1).unwrap();
    assert_eq!(lib.scalar(&doc, last), "c");
    assert!(lib.seq_get(&doc, items, 3).is_none());
    assert!(lib.seq_get(&doc, map, 0).is_none());
    assert!(lib.map_get(&doc, items, "k").is_none());
    assert!(lib.map_get(&doc, map, "x").is_none());
    assert_eq!(lib.items(&doc, "/items"), strings(&["a", "b", "c"]));
    assert!(lib.items(&doc, "/map").is_empty());
    assert!(lib.entries(&doc, "/items").is_empty());
    let items = NodeRef::new(items, &doc);
    let map = NodeRef::new(map, &doc);
    assert_eq!(failure(run(&mut lib, items.map_len())), "expected mapping, got non-mapping");
    assert_eq!(failure(run(&mut lib, map.seq_len())), "expected sequence, got non-sequence");
    assert_eq!(
        failure(run(&mut lib, map.scalar_bytes())),
        "expected scalar, got non-scalar or null"
    );
    assert!(run(&mut lib, map.tag_bytes()).unwrap().is_none());
    assert!(map.tag_str(Ok(None)).unwrap().is_none());
    assert_eq!(map.document().ptr, doc.ptr);
    assert!(run(&mut lib, doc.root_value()).is_some());
}

#[test]
fn spans_that_no_slice_can_hold_are_refused() {
    let doc = Document::from_raw_ptr(16, InputOwnership::NoInput);
    let node = NodeRef::new(32, &doc);
    let huge = isize::MAX as usize + 1;
    match node.scalar_bytes() {
        Step::Ask(session, _) => {
            match session.resume(Reply::Slice { address: 8, len: huge }) {
                Step::Done(r) => assert_eq!(failure(r), format!("too large: {huge}")),
                Step::Ask(_, _) => unreachable!(),
            };
        }
        Step::Done(_) => unreachable!(),
    }
    match node.tag_bytes() {
        Step::Ask(session, _) => {
            match session.resume(Reply::Slice { address: 8, len: huge }) {
                Step::Done(r) => assert_eq!(failure(r), format!("too large: {huge}")),
                Step::Ask(_, _) => unreachable!(),
            };
        }
        Step::Done(_) => unreachable!(),
    }
    let bytes: &[u8] = &[0xff, 0xfe];
    assert_eq!(failure(node.scalar_str(Ok(bytes))), "utf8");
    assert_eq!(failure(node.tag_str(Ok(Some(bytes)))), "utf8");
}

#[test]
fn adding_a_key_and_deleting_it_changes_nothing() {
    let mut lib = Lib::new();
    let mut doc = lib.parse("a: {b: 1}\nc: [x]").unwrap();
    let before = (lib.nodes.len(), lib.pairs.len(), lib.emit(&doc));
    lib.set(&mut doc, "/a/new", "[1, {k: v}]").unwrap();
    assert_eq!(lib.text_at(&doc, "/a/new/1/k"), "v");
    assert!(lib.delete(&mut doc, "/a/new").unwrap());
    assert_eq!((lib.nodes.len(), lib.pairs.len(), lib.emit(&doc)), before);
    assert!(!lib.delete(&mut doc, "/a/new").unwrap());
    assert_eq!((lib.nodes.len(), lib.pairs.len(), lib.emit(&doc)), before);
}

#[test]
fn keys_may_have_hyphens_dots_and_spaces() {
    let mut lib = Lib::new();
    let mut doc = lib.parse("my-key: 1\nversion.2: {first name: x}").unwrap();
    assert_eq!(lib.text_at(&doc, "/my-key"), "1");
    assert_eq!(lib.text_at(&doc, "/version.2/first name"), "x");
    lib.set(&mut doc, "/my-key", "2").unwrap();
    assert_eq!(lib.text_at(&doc, "/my-key"), "2");
    lib.set(&mut doc, "/version.2/last-name", "y").unwrap();
    assert_eq!(lib.text_at(&doc, "/version.2/last-name"), "y");
    assert_eq!(
        lib.entries(&doc, "/version.2"),
        owned(&[("first name", "x"), ("last-name", "y")])
    );
    let root = lib.root(&doc).unwrap();
    let value = lib.map_get(&doc, root, "my-key").unwrap();
    assert_eq!(lib.scalar(&doc, value), "2");
    assert!(lib.map_get(&doc, root, "my.key").is_none());
    assert!(lib.delete(&mut doc, "/version.2/first name").unwrap());
    assert!(!lib.delete(&mut doc, "/version.2/first name").unwrap());
    assert!(lib.delete(&mut doc, "/my-key").unwrap());
    assert!(lib.at(&doc, "/my-key").is_none());
}

#[test]
fn keys_may_be_any_plain_name() {
    let mut lib = Lib::new();
    let mut doc = lib.parse("top: {x: 1}").unwrap();
    let before = (lib.nodes.len(), lib.pairs.len(), lib.emit(&doc));
    for key in ["$ref", ".base", "a:b", "C#", "a,b", "a[0]", "-x", "<<", "ключ", "naïve"] {
        let path = format!("/top/{key}");
        lib.set(&mut doc, &path, "[v, w]").unwrap();
        let top = lib.at(&doc, "/top").unwrap();
        let value = lib.map_get(&doc, top, key).unwrap();
        assert!(lib.is(&doc, value, NodeType::Sequence), "{key}");
        if key.is_ascii() {
            assert_eq!(lib.at(&doc, &path), Some(value), "{key}");
            assert_eq!(lib.text_at(&doc, &format!("{path}/1")), "w");
        }
        assert!(lib.delete(&mut doc, &path).unwrap(), "{key}");
        assert!(lib.map_get(&doc, top, key).is_none(), "{key}");
        assert!(!lib.delete(&mut doc, &path).unwrap(), "{key}");
        assert_eq!((lib.nodes.len(), lib.pairs.len(), lib.emit(&doc)), before);
    }
}

#[test]
fn paths_join() {
    let mut lib = Lib::new();
    let doc = lib.parse("a: {b: [x, {c: y}]}\nd: 1").unwrap();
    let root = run(&mut lib, doc.root()).unwrap();
    for (first, second) in
        [("/a", "b"), ("a/b", "1/c"), ("a", "/b/-2"), ("", "d"), ("d", ""), ("a", "z"), ("z", "b")]
    {
        let joined = format!("{first}/{second}");
        let at_once = run(&mut lib, root.at_path(&joined)).map(|n| n.node);
        let in_turn = match run(&mut lib, root.at_path(first)) {
            Some(node) => run(&mut lib, node.at_path(second)).map(|n| n.node),
            None => None,
        };
        assert_eq!(at_once, in_turn, "{joined}");
    }
    assert_eq!(run(&mut lib, root.at_path("")).map(|n| n.node), Some(root.node));
}

#[test]
fn a_mapping_takes_a_key_once() {
    let mut lib = Lib::new();
    let mut doc = lib.create();
    let mut ed = doc.edit();
    let map = run(&mut lib, ed.build_mapping()).unwrap();
    for (key, value, taken) in [("a", "1", true), ("b", "2", true), ("a", "3", false)] {
        let k = run(&mut lib, ed.build_scalar(key)).unwrap();
        let v = run(&mut lib, ed.build_scalar(value)).unwrap();
        assert_eq!(run(&mut lib, ed.map_insert(&map, k, v)).is_ok(), taken);
    }
    run(&mut lib, ed.set_root(map)).unwrap();
    assert_eq!(lib.entries(&doc, ""), owned(&[("a", "1"), ("b", "2")]));
    assert_eq!(lib.nodes.len(), 5);
}

#[test]
fn a_copy_looks_like_the_original() {
    let mut lib = Lib::new();
    let src = lib.parse("list: [a, 'b']\nmap: {k: \"v\"}").unwrap();
    let src_node = run(&mut lib, src.root()).unwrap();
    let mut dest = lib.create();
    let mut ed = dest.edit();
    let copied = run(&mut lib, ed.copy_node(src_node)).unwrap();
    run(&mut lib, ed.set_root(copied)).unwrap();
    assert_eq!(lib.emit(&dest), lib.emit(&src));
    assert_eq!(lib.items(&dest, "/list"), strings(&["a", "b"]));
    lib.set(&mut dest, "/map/k", "w").unwrap();
    assert_eq!(lib.text_at(&dest, "/map/k"), "w");
    assert_eq!(lib.text_at(&src, "/map/k"), "v");
}

#[test]
fn a_scalar_reads_back_as_it_was_built() {
    let mut lib = Lib::new();
    let mut doc = lib.create();
    for text in ["plain", "with: colon", "naïve", "two\nlines", " "] {
        let mut ed = doc.edit();
        let node = run(&mut lib, ed.build_scalar(text)).unwrap();
        run(&mut lib, ed.set_root(node)).unwrap();
        let root = lib.root(&doc).unwrap();
        assert_eq!(lib.scalar(&doc, root), text);
    }
    let mut ed = doc.edit();
    let node = run(&mut lib, ed.build_sequence()).unwrap();
    run(&mut lib, ed.set_root(node)).unwrap();
    let root = lib.root(&doc).unwrap();
    assert_eq!(
        failure(run(&mut lib, NodeRef::new(root, &doc).scalar_bytes())),
        "expected scalar, got non-scalar or null"
    );
    assert!(run(&mut lib, NodeRef::new(root, &doc).tag_bytes()).unwrap().is_none());
}

#[test]
fn emitting_again_gives_the_same() {
    let mut lib = Lib::new();
    let doc = lib.parse("# top\nfoo: [1, 2] # tail\nbar: |\n  x\n  y").unwrap();
    let before = lib.emit(&doc);
    let first = lib.events(doc.emitter());
    let second = lib.events(doc.emitter());
    assert_eq!(first, second);
    assert_eq!(events_to_string(&first), before);
    assert_eq!(lib.emit(&doc), before);
    assert!(lib.idle());
}

#[test]
fn input_may_come_in_three_ways() {
    let mut lib = Lib::new();
    for text in ["a: 1\nb: [x, y]", "[x", "a: 1\nb", "just text", ""] {
        let copied = lib.parse(text);
        let kept = run_owned(&mut lib, Document::from_string(text.to_string()));
        let bytes = run_owned(&mut lib, Document::from_bytes(text.as_bytes().to_vec()));
        assert_eq!(copied.is_ok(), kept.is_ok(), "{text}");
        assert_eq!(copied.is_ok(), bytes.is_ok(), "{text}");
        match (copied, kept, bytes) {
            (Ok(a), Ok(b), Ok(c)) => {
                assert_eq!(lib.emit(&a), lib.emit(&b));
                assert_eq!(lib.emit(&a), lib.emit(&c));
                for path in ["", "/a", "/b/1", "/b/2", "/c"] {
                    let there = lib.at(&a, path).map(|n| lib.text(n).to_string());
                    assert_eq!(lib.at(&b, path).map(|n| lib.text(n).to_string()), there);
                    assert_eq!(lib.at(&c, path).map(|n| lib.text(n).to_string()), there);
                }
            }
            (a, b, c) => {
                let first = failure(a);
                assert_eq!(first, failure(b));
                assert_eq!(first, failure(c));
            }
        }
    }
}

#[test]
fn paths_that_lead_nowhere() {
    let mut lib = Lib::new();
    let doc = lib.parse("a: {b: 1}\nc: [x]").unwrap();
    for path in ["/z", "/a/z", "/a/b/z", "/c/1", "/c/-2", "/c/z", "/z/z"] {
        assert!(lib.at(&doc, path).is_none(), "{path}");
    }
    for path in ["", "/", "/a", "/a/b", "//a//b/", "/c/-1", "c/0"] {
        assert!(lib.at(&doc, path).is_some(), "{path}");
    }
    assert_eq!(lib.at(&doc, ""), lib.root(&doc));
    let empty = lib.create();
    assert!(lib.at(&empty, "").is_none());
}

#[test]
fn what_was_set_reads_as_the_snippet() {
    for yaml in ["text", "'quoted'", "[x, {k: v}]", "k: {a: 1, b: [2, 3]}\nl: m", "- p\n- [q]"] {
        let mut lib = Lib::new();
        let alone = lib.parse(yaml).unwrap();
        let expected = lib.emit(&alone);
        for path in ["", "/a", "/a/b", "/a/new", "/c/0", "/c/-1", "/c/[1]/d", "/c/[1]/new"] {
            let mut doc = lib.parse("a: {b: 1}\nc: [x, {d: 4}]").unwrap();
            lib.set(&mut doc, path, yaml).unwrap();
            let node = lib.at(&doc, path).unwrap();
            assert_eq!(lib.emit_node(&doc, node).trim_end(), expected.trim_end(), "{path}: {yaml}");
        }
        let mut doc = lib.parse("a: {b: 1}").unwrap();
        lib.set(&mut doc, "/a/some name", yaml).unwrap();
        let map = lib.at(&doc, "/a").unwrap();
        let node = lib.map_get(&doc, map, "some name").unwrap();
        assert_eq!(lib.emit_node(&doc, node).trim_end(), expected.trim_end());
    }
}

#[test]
fn a_snippet_that_does_not_parse_is_not_set() {
    let mut lib = Lib::new();
    let mut doc = lib.parse("a: {b: 1}").unwrap();
    let before = (lib.nodes.len(), lib.pairs.len(), lib.emit(&doc));
    for path in ["", "/a", "/a/new"] {
        assert_eq!(
            failure(lib.set(&mut doc, path, "[x")),
            "at 1:3: did not find expected ',' or closing bracket"
        );
        assert_eq!((lib.nodes.len(), lib.pairs.len(), lib.emit(&doc)), before);
    }
    let mut ed = doc.edit();
    assert!(run(&mut lib, ed.build_from_yaml("[x")).is_err());
    let node = run(&mut lib, ed.build_from_yaml("[x, y]")).unwrap();
    assert!(!node.inserted);
    run(&mut lib, ed.set_root(node)).unwrap();
    assert_eq!(lib.items(&doc, ""), strings(&["x", "y"]));
}

#[test]
fn a_parent_may_be_reached_in_other_ways() {
    let mut lib = Lib::new();
    let mut doc = lib.parse("list: [x, {k: v}]").unwrap();
    let before = (lib.nodes.len(), lib.pairs.len(), lib.emit(&doc));
    lib.set(&mut doc, "/list/[1]/new", "[1, 2]").unwrap();
    assert_eq!(lib.items(&doc, "/list/1/new"), strings(&["1", "2"]));
    assert!(lib.delete(&mut doc, "/list/[1]/new").unwrap());
    assert_eq!((lib.nodes.len(), lib.pairs.len(), lib.emit(&doc)), before);
    assert!(!lib.delete(&mut doc, "/list/[1]/new").unwrap());
    assert_eq!(
        failure(lib.set(&mut doc, "/list/[7]/new", "1")),
        failure(lib.set(&mut doc, "/list/7/new", "1"))
    );
    assert_eq!((lib.nodes.len(), lib.pairs.len(), lib.emit(&doc)), before);
}

#[test]
fn documents_come_in_order_and_then_the_end() {
    for (text, texts, broken) in [
        ("---\nn: 1\n---\nn: 2\n---\nn: 3", ["1", "2", "3"].as_slice(), false),
        ("---\nn: 1\n---\n[b\n---\nn: 3", ["1"].as_slice(), true),
        ("[b", [].as_slice(), true),
        ("", [].as_slice(), false),
    ] {
        let mut lib = Lib::new();
        let parser = lib.stream(text);
        let mut iter = parser.doc_iter();
        let mut docs: Vec<Document> = Vec::new();
        for _ in texts {
            let (rest, item) = run(&mut lib, iter.next());
            iter = rest;
            docs.push(item.unwrap().unwrap());
        }
        let (rest, item) = run(&mut lib, iter.next());
        assert_eq!(item.is_some(), broken, "{text}");
        assert!(item.map_or(true, |r| r.is_err()));
        let (rest, item) = run(&mut lib, rest.next());
        assert!(item.is_none());
        assert!(rest.done);
        for (doc, expected) in docs.iter().zip(texts) {
            assert_eq!(lib.text_at(doc, "/n"), *expected);
        }
    }
}
