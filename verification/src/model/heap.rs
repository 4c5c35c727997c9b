//! A model of the node trees that libfyaml keeps, and of what its calls do to them.
//!
//! The model is ghost: it exists to say, and prove, what a session achieves when every call it
//! asks for behaves as libfyaml documents it.

use vstd::prelude::*;
use vstd::utf8::encode_utf8;

use crate::call::{Call, Reply};
use crate::error::ParseError;
use crate::model::world::World;
use crate::node::{FYNS_ALIAS, FYNT_MAPPING, FYNT_SCALAR, FYNT_SEQUENCE};
use crate::path::{is_index, key_part, parent_part, signed_value};

verus! {

/// A key-value pair of a mapping: its own address, and the addresses of its key and value nodes.
pub struct Entry {
    pub pair: usize,
    pub key: usize,
    pub value: usize,
}

/// What a node holds.
pub enum Body {
    Scalar(Seq<char>),
    Sequence(Seq<usize>),
    Mapping(Seq<Entry>),
}

/// A node: what it holds, whether it is part of a larger tree or is a root, its style, and its tag,
/// resolved.
pub struct Cell {
    pub body: Body,
    pub attached: bool,
    pub style: i32,
    pub tag: Option<Seq<char>>,
}

/// The nodes of one document, by address; the address of its root, `0` for none; and the address
/// of the collector it reports diagnostics to. `foreign` holds the nodes of other documents, and
/// `local` is the text that the exclamation mark of a local tag stands for, `buffers` holds the bytes
/// in buffers that were allocated, and `diags` the first error that each collector recorded; where
/// memory is scarce, that is not kept track of.
///
/// The rest is what libfyaml goes by. `snippets` says what the tree looks like that it makes of bytes,
/// nothing for bytes that it does not accept, and `faults` the error that it records for those;
/// `reads` which names it reads as the scalar with just their characters; `turns` which way it takes
/// at a node for a path, and what is left of the path then; `finds` which pair it finds for any other
/// name; `same_key` which keys it takes for the same; `grants` whether it gives a node the style that
/// it is asked for; `sortable` whether it sorts sequences. The two orders are those of the
/// comparators that a sort is given: whether the first may stand before the second. Whether memory
/// may run out is said by `scarce`. Anchors, and what directives a snippet brings along, are left
/// out.
pub struct Heap {
    pub nodes: Map<usize, Cell>,
    pub root: usize,
    pub diag: usize,
    pub foreign: Map<usize, Cell>,
    pub local: Seq<char>,
    pub buffers: Map<usize, Seq<u8>>,
    pub diags: Map<usize, Option<ParseError>>,
    pub snippets: spec_fn(Seq<u8>) -> Option<spec_fn(nat) -> Look>,
    pub faults: spec_fn(Seq<u8>) -> Option<ParseError>,
    pub reads: spec_fn(Seq<char>) -> bool,
    pub turns: spec_fn(Front, Seq<char>) -> Option<(int, Seq<char>)>,
    pub finds: spec_fn(Front, Seq<char>) -> Option<int>,
    pub same_key: spec_fn(spec_fn(nat) -> Look, spec_fn(nat) -> Look) -> bool,
    pub grants: spec_fn(Cell, i32) -> bool,
    pub sortable: bool,
    pub scarce: bool,
    pub pair_order: spec_fn(Entry, Entry) -> bool,
    pub item_order: spec_fn(usize, usize) -> bool,
}

/// Whether a relation orders any two things, consistently.
pub open spec fn is_order<A>(le: spec_fn(A, A) -> bool) -> bool {
    &&& forall|a: A, b: A| #[trigger] le(a, b) || le(b, a)
    &&& forall|a: A, b: A, c: A| #[trigger] le(a, b) && #[trigger] le(b, c) ==> le(a, c)
}

/// Whether `s` is in the order `le`.
pub open spec fn in_order<A>(s: Seq<A>, le: spec_fn(A, A) -> bool) -> bool {
    forall|i: int, j: int| 0 <= i < j < s.len() ==> le(#[trigger] s[i], #[trigger] s[j])
}

/// Whether `sorted` is what sorting `s` by `le` may give: the same things, and in order provided
/// that `le` is one.
pub open spec fn sorts<A>(s: Seq<A>, le: spec_fn(A, A) -> bool, sorted: Seq<A>) -> bool {
    &&& sorted.to_multiset() == s.to_multiset()
    &&& is_order(le) ==> in_order(sorted, le)
}

/// The key nodes of a mapping, in order.
pub open spec fn keys(entries: Seq<Entry>) -> Seq<usize> {
    entries.map_values(|e: Entry| e.key)
}

/// The value nodes of a mapping, in order.
pub open spec fn values(entries: Seq<Entry>) -> Seq<usize> {
    entries.map_values(|e: Entry| e.value)
}

/// The addresses of the pairs of a mapping, in order.
pub open spec fn pairs(entries: Seq<Entry>) -> Seq<usize> {
    entries.map_values(|e: Entry| e.pair)
}

/// The nodes directly inside a node.
pub open spec fn kids(body: Body) -> Seq<usize> {
    match body {
        Body::Scalar(_) => Seq::empty(),
        Body::Sequence(items) => items,
        Body::Mapping(entries) => keys(entries) + values(entries),
    }
}

/// The item that `index` selects, counting from the end when negative; `0` for none.
pub open spec fn item_at(items: Seq<usize>, index: int) -> usize {
    if 0 <= index < items.len() {
        items[index]
    } else if -items.len() <= index < 0 {
        items[items.len() + index]
    } else {
        0
    }
}

/// What comes after `last` in a list of addresses; the first for `0`, and `0` after the end.
pub open spec fn next_after(list: Seq<usize>, last: usize) -> usize {
    if last == 0 {
        item_at(list, 0)
    } else {
        item_at(list, list.index_of(last) + 1)
    }
}

/// Whether `c` is a letter, a digit or an underscore.
pub open spec fn is_word_char(c: char) -> bool {
    'A' <= c <= 'Z' || 'a' <= c <= 'z' || '0' <= c <= '9' || c == '_'
}

/// Whether `c` shows in print: no space, no control character, no line separator and no byte order
/// mark.
pub open spec fn is_visible(c: char) -> bool {
    ||| '!' <= c <= '~'
    ||| 0xa1 <= c as u32 && c as u32 != 0x2028 && c as u32 != 0x2029 && c as u32 != 0xfeff && c as u32
        != 0xfffe && c as u32 != 0xffff
}

/// Whether YAML gives `c` a meaning of its own at the start of a scalar, so that no plain scalar
/// begins with it.
pub open spec fn is_indicator(c: char) -> bool {
    ||| c == ',' || c == '[' || c == ']' || c == '{' || c == '}' || c == '#' || c == '&' || c == '*'
    ||| c == '!' || c == '|' || c == '>' || c == '\'' || c == '"' || c == '%' || c == '@' || c == '`'
}

/// Whether a name begins like a plain scalar. A dash, a question mark or a colon has to be followed
/// by something visible.
pub open spec fn starts_plain(name: Seq<char>) -> bool {
    &&& is_visible(name[0])
    &&& !is_indicator(name[0])
    &&& name[0] == '-' || name[0] == '?' || name[0] == ':' ==> name.len() > 1 && is_visible(name[1])
}

/// Whether the character at `i` of a name continues a plain scalar. A single space parts two words;
/// a colon ends the scalar before a space or the end, and a hash after a space starts a comment.
pub open spec fn plain_at(name: Seq<char>, i: int) -> bool {
    if name[i] == ' ' {
        i + 1 < name.len() && is_visible(name[i + 1]) && name[i + 1] != '#'
    } else {
        is_visible(name[i]) && (name[i] == ':' ==> i + 1 < name.len() && name[i + 1] != ' ')
    }
}

/// Whether a name begins with a marker between documents: three dashes or dots that stand alone.
pub open spec fn is_marker(name: Seq<char>) -> bool {
    &&& name.len() >= 3
    &&& name[0] == '-' || name[0] == '.'
    &&& name[1] == name[0] && name[2] == name[0]
    &&& name.len() == 3 || name[3] == ' '
}

/// Whether YAML reads `name` as a plain scalar with just these characters: one or more words, parted
/// by single spaces, that hold nothing which YAML takes for something else there. libfyaml takes the
/// empty name as it is, too.
pub open spec fn is_plain_name(name: Seq<char>) -> bool {
    name.len() == 0 || {
        &&& starts_plain(name)
        &&& !is_marker(name)
        &&& forall|i: int| 0 <= i < name.len() ==> #[trigger] plain_at(name, i)
    }
}

/// Whether a stretch of a path between slashes stands for itself: it is ASCII, and has neither
/// quotes nor backslashes, with which a path quotes and escapes.
pub open spec fn is_bare(seg: Seq<char>) -> bool {
    forall|i: int| 0 <= i < seg.len() ==> {
        let c = #[trigger] seg[i];
        ' ' <= c <= '~' && c != '"' && c != '\'' && c != '\\'
    }
}

/// Whether a tag is local: an exclamation mark and then an identifier, in which dots and hyphens
/// are allowed.
pub open spec fn is_local_tag(tag: Seq<char>) -> bool {
    &&& tag.len() > 1
    &&& tag[0] == '!'
    &&& is_word_char(tag[1]) && !('0' <= tag[1] <= '9')
    &&& forall|i: int|
        1 <= i < tag.len() ==> is_word_char(#[trigger] tag[i]) || tag[i] == '-' || tag[i] == '.'
}

/// What a tree looks like, down to some depth: kinds, texts, styles and tags, in their arrangement,
/// but no addresses.
pub enum Look {
    /// Too deep to be seen.
    Deep,
    Scalar { style: i32, tag: Option<Seq<char>>, text: Seq<char> },
    Sequence { style: i32, tag: Option<Seq<char>>, items: Seq<Look> },
    Mapping { style: i32, tag: Option<Seq<char>>, keys: Seq<Look>, values: Seq<Look> },
}

/// What the tree under `n` looks like, `k` levels deep.
pub open spec fn look(nodes: Map<usize, Cell>, n: usize, k: nat) -> Look
    decreases k,
{
    if k == 0 {
        Look::Deep
    } else {
        let Cell { style, tag, body, .. } = nodes[n];
        match body {
            Body::Scalar(text) => Look::Scalar { style, tag, text },
            Body::Sequence(items) => Look::Sequence {
                style,
                tag,
                items: Seq::new(items.len(), |i: int| look(nodes, items[i], (k - 1) as nat)),
            },
            Body::Mapping(entries) => Look::Mapping {
                style,
                tag,
                keys: Seq::new(
                    entries.len(),
                    |i: int| look(nodes, entries[i].key, (k - 1) as nat),
                ),
                values: Seq::new(
                    entries.len(),
                    |i: int| look(nodes, entries[i].value, (k - 1) as nat),
                ),
            },
        }
    }
}

/// What the tree under `n` looks like at every depth.
pub open spec fn whole_look(nodes: Map<usize, Cell>, n: usize) -> spec_fn(nat) -> Look {
    |k: nat| look(nodes, n, k)
}

/// Whether the trees under two nodes look alike, all the way down.
pub open spec fn look_alike(
    from: Map<usize, Cell>,
    n: usize,
    to: Map<usize, Cell>,
    m: usize,
) -> bool {
    whole_look(from, n) == whole_look(to, m)
}

/// What libfyaml sees of a node when it follows a path: its kind, how many items it has, and what its
/// keys look like.
pub enum Front {
    Scalar,
    Sequence { items: nat },
    Mapping { keys: Seq<spec_fn(nat) -> Look> },
}

/// What libfyaml sees of the node at `n`.
pub open spec fn front(nodes: Map<usize, Cell>, n: usize) -> Front {
    match nodes[n].body {
        Body::Scalar(_) => Front::Scalar,
        Body::Sequence(items) => Front::Sequence { items: items.len() },
        Body::Mapping(entries) => Front::Mapping {
            keys: Seq::new(entries.len(), |i: int| whole_look(nodes, entries[i].key)),
        },
    }
}

/// The part of a path before its first slash.
pub open spec fn head_part(path: Seq<char>) -> Seq<char>
    decreases path.len(),
{
    if path.len() == 0 || path[0] == '/' {
        Seq::empty()
    } else {
        seq![path[0]] + head_part(path.skip(1))
    }
}

/// The steps of a path: what stands between its slashes, empty stretches left out.
pub open spec fn segments(path: Seq<char>) -> Seq<Seq<char>>
    decreases path.len(),
    via segments_decreases
{
    if path.len() == 0 {
        Seq::empty()
    } else if key_part(path).len() == 0 {
        segments(parent_part(path))
    } else {
        segments(parent_part(path)).push(key_part(path))
    }
}

#[via_fn]
proof fn segments_decreases(path: Seq<char>) {
    crate::path::lemma_last_slash(path);
}

impl Heap {
    /// Whether there is a node at `n`.
    pub open spec fn has(self, n: usize) -> bool {
        self.nodes.contains_key(n)
    }

    /// What the node at `n` holds.
    pub open spec fn body(self, n: usize) -> Body {
        self.nodes[n].body
    }

    /// Whether the node at `n` is part of a larger tree, or a root.
    pub open spec fn attached(self, n: usize) -> bool {
        self.nodes[n].attached
    }

    /// Whether `c` stands directly inside the node at `p`.
    pub open spec fn kid(self, p: usize, c: usize) -> bool {
        self.has(p) && kids(self.body(p)).contains(c)
    }

    /// Whether `m` is `n` or can be reached from it in at most `k` steps down.
    pub open spec fn reach(self, n: usize, m: usize, k: nat) -> bool
        decreases k,
    {
        n == m || (k > 0 && exists|q: usize| #[trigger]
            self.kid(q, m) && self.reach(n, q, (k - 1) as nat))
    }

    /// Whether `m` lies in the tree under `n`, `n` included.
    pub open spec fn below(self, n: usize, m: usize) -> bool {
        exists|k: nat| #[trigger] self.reach(n, m, k)
    }

    /// Whether `rank` gets smaller at every step down.
    pub open spec fn ranked(self, rank: spec_fn(usize) -> nat) -> bool {
        forall|p: usize, c: usize| #[trigger] self.kid(p, c) ==> rank(c) < rank(p)
    }

    /// Whether the nodes form trees: what stands inside a node exists, stands there once and
    /// nowhere else, and nothing contains itself. A node is marked attached exactly when it is the
    /// root or stands inside another. Pairs have addresses of their own. No sequence outgrows a C
    /// `int`.
    pub open spec fn well_formed(self) -> bool {
        &&& !self.has(0)
        &&& self.root != 0 ==> self.has(self.root) && self.attached(self.root)
        &&& forall|p: usize, c: usize| #[trigger]
            self.kid(p, c) ==> self.has(c) && self.attached(c) && c != self.root
        &&& forall|c: usize| #[trigger]
            self.has(c) && self.attached(c) && c != self.root ==> exists|p: usize| self.kid(p, c)
        &&& forall|p: usize, q: usize, c: usize| #[trigger]
            self.kid(p, c) && #[trigger] self.kid(q, c) ==> p == q
        &&& forall|p: usize| #[trigger] self.has(p) ==> kids(self.body(p)).no_duplicates()
        &&& exists|rank: spec_fn(usize) -> nat| self.ranked(rank)
        &&& self.pairs_distinct()
        &&& forall|p: usize| #[trigger]
            self.has(p) ==> (self.body(p) matches Body::Sequence(items) ==> items.len() <= i32::MAX)
    }

    /// The pairs of the mapping at `p`.
    pub open spec fn entries(self, p: usize) -> Seq<Entry> {
        match self.body(p) {
            Body::Mapping(entries) => entries,
            _ => Seq::empty(),
        }
    }

    /// The items of the sequence at `p`.
    pub open spec fn items(self, p: usize) -> Seq<usize> {
        match self.body(p) {
            Body::Sequence(items) => items,
            _ => Seq::empty(),
        }
    }

    /// Whether the pair at address `pair` is the `i`-th of the mapping at `p`.
    pub open spec fn pair_at(self, pair: usize, p: usize, i: int) -> bool {
        &&& self.has(p)
        &&& 0 <= i < self.entries(p).len()
        &&& self.entries(p)[i].pair == pair
    }

    /// Whether every pair has an address of its own, and none is null.
    pub open spec fn pairs_distinct(self) -> bool {
        &&& forall|pair: usize, p: usize, i: int| #[trigger] self.pair_at(pair, p, i) ==> pair != 0
        &&& forall|pair: usize, p: usize, i: int, q: usize, j: int| #[trigger]
            self.pair_at(pair, p, i) && #[trigger] self.pair_at(pair, q, j) ==> p == q && i == j
    }

    /// Whether the key node of an entry is the scalar `name`, and not an alias.
    pub open spec fn named(self, e: Entry, name: Seq<char>) -> bool {
        &&& self.has(e.key)
        &&& self.body(e.key) == Body::Scalar(name)
        &&& self.nodes[e.key].style != FYNS_ALIAS
    }

    /// Whether libfyaml looks `name` up in mappings just as it stands. To look anything up it needs
    /// memory.
    pub open spec fn plain(self, name: Seq<char>) -> bool {
        (is_plain_name(name) || (self.reads)(name)) && !self.scarce
    }

    /// Whether libfyaml goes by the same rules in another heap.
    pub open spec fn same_rules(self, other: Heap) -> bool {
        &&& self.snippets == other.snippets
        &&& self.faults == other.faults
        &&& self.reads == other.reads
        &&& self.turns == other.turns
        &&& self.finds == other.finds
        &&& self.same_key == other.same_key
        &&& self.grants == other.grants
        &&& self.sortable == other.sortable
        &&& self.scarce == other.scarce
    }

    /// Position of the first entry whose key is the scalar `name`; the number of entries when
    /// there is none.
    pub open spec fn find_from(self, entries: Seq<Entry>, name: Seq<char>, i: nat) -> nat
        decreases entries.len() - i,
    {
        if i >= entries.len() || self.named(entries[i as int], name) {
            i
        } else {
            self.find_from(entries, name, i + 1)
        }
    }

    /// Position of the entry for `name` in the mapping at `p`; the number of entries for none.
    pub open spec fn find(self, p: usize, name: Seq<char>) -> nat {
        self.find_from(self.entries(p), name, 0)
    }

    /// The value that the mapping at `p` has for a name; `0` for none.
    pub open spec fn value(self, p: usize, name: Seq<char>) -> usize {
        if self.find(p, name) < self.entries(p).len() {
            self.entries(p)[self.find(p, name) as int].value
        } else {
            0
        }
    }

    /// Position of the pair that libfyaml finds for a name in the mapping at `p`, `-1` for none: for a
    /// plain name the first pair whose key is that scalar. To look anything up it needs memory.
    pub open spec fn spot(self, p: usize, name: Seq<char>) -> int {
        if self.plain(name) {
            if self.find(p, name) < self.entries(p).len() {
                self.find(p, name) as int
            } else {
                -1
            }
        } else {
            match (self.finds)(front(self.nodes, p), name) {
                Some(i) => if 0 <= i < self.entries(p).len() {
                    i
                } else {
                    -1
                },
                None => -1,
            }
        }
    }

    /// What a key selects in the node at `p`: the value of a name in a mapping, the item at an index
    /// in a sequence; `0` for nothing.
    pub open spec fn child(self, p: usize, key: Seq<char>) -> usize {
        if !self.has(p) {
            0
        } else {
            match self.body(p) {
                Body::Scalar(_) => 0,
                Body::Sequence(items) => if is_index(key) {
                    item_at(items, signed_value(key))
                } else {
                    0
                },
                Body::Mapping(_) => self.value(p, key),
            }
        }
    }

    /// Whether the node at `key` is a scalar with a text, and not an alias. Such keys are told apart
    /// by their text.
    pub open spec fn is_text(self, key: usize) -> bool {
        &&& self.has(key)
        &&& self.body(key) matches Body::Scalar(text) && text.len() > 0
        &&& self.nodes[key].style != FYNS_ALIAS
    }

    /// Whether the mapping at `map` has a pair under the text of the node at `key`.
    pub open spec fn holds_key(self, map: usize, key: usize) -> bool {
        self.is_text(key) && self.find(map, self.body(key)->Scalar_0) < self.entries(map).len()
    }

    /// Whether no earlier pair of the mapping at `map` has a key that libfyaml takes for the same as
    /// that of the `i`-th.
    pub open spec fn first_of_kind(self, map: usize, i: int) -> bool {
        let entries = self.entries(map);
        forall|j: int|
            0 <= j < i ==> !(self.same_key)(
                whole_look(self.nodes, (#[trigger] entries[j]).key),
                whole_look(self.nodes, entries[i].key),
            )
    }

    /// Whether the node at `map` is a mapping, and a pair of these two nodes may be added to it: both
    /// are detached, and the key is a text that the mapping lacks.
    pub open spec fn takes_pair(self, map: usize, key: usize, value: usize) -> bool {
        &&& self.is_mapping(map)
        &&& self.loose(key)
        &&& self.loose(value)
        &&& self.is_text(key)
        &&& !self.holds_key(map, key)
    }

    /// The nodes among which the node at `n` stands: those of this document, or of another.
    pub open spec fn nodes_around(self, n: usize) -> Map<usize, Cell> {
        if self.has(n) {
            self.nodes
        } else {
            self.foreign
        }
    }

    /// The node one step of a path away from `p`; `0` for none.
    pub open spec fn step(self, p: usize, seg: Seq<char>) -> usize {
        if !self.has(p) {
            0
        } else {
            match self.body(p) {
                Body::Scalar(_) => 0,
                Body::Sequence(items) => if is_index(seg) && seg[0] != '+' {
                    item_at(items, signed_value(seg))
                } else {
                    0
                },
                Body::Mapping(_) => if self.plain(seg) && is_bare(seg) {
                    self.value(p, seg)
                } else {
                    0
                },
            }
        }
    }

    /// The node that a series of steps leads to from `n`; `0` when it leads nowhere.
    pub open spec fn walk(self, n: usize, segs: Seq<Seq<char>>) -> usize
        decreases segs.len(),
    {
        if segs.len() == 0 {
            n
        } else {
            self.step(self.walk(n, segs.drop_last()), segs.last())
        }
    }

    /// Whether libfyaml takes `seg` for one plain step from the node at `p`: in a mapping a plain
    /// name; in a sequence an index, or something that does not begin like one. From a scalar nothing
    /// leads on.
    pub open spec fn plain_step(self, p: usize, seg: Seq<char>) -> bool {
        match self.body(p) {
            Body::Scalar(_) => true,
            Body::Sequence(_) => is_index(seg) || (is_bare(seg) && !('0' <= seg[0] <= '9') && seg[0]
                != '-' && seg[0] != '[' && seg[0] != ' '),
            Body::Mapping(_) => self.plain(seg) && is_bare(seg),
        }
    }

    /// The node at position `i` in the container at `p`, the value for a mapping; `0` for none.
    pub open spec fn part(self, p: usize, i: int) -> usize {
        if !self.has(p) {
            0
        } else {
            match self.body(p) {
                Body::Scalar(_) => 0,
                Body::Sequence(items) => if 0 <= i < items.len() {
                    items[i]
                } else {
                    0
                },
                Body::Mapping(entries) => if 0 <= i < entries.len() {
                    entries[i].value
                } else {
                    0
                },
            }
        }
    }

    /// The node that libfyaml takes a path from `n` to: plain steps as they stand, other stretches of
    /// the path its own way; `0` for none.
    pub open spec fn lead(self, n: usize, path: Seq<char>) -> usize
        decreases path.len(),
    {
        let seg = head_part(path);
        if path.len() == 0 {
            n
        } else if path[0] == '/' {
            self.lead(n, path.skip(1))
        } else if !self.has(n) {
            0
        } else if self.plain_step(n, seg) {
            if 0 < seg.len() <= path.len() {
                self.lead(self.step(n, seg), path.skip(seg.len() as int))
            } else {
                0
            }
        } else {
            match (self.turns)(front(self.nodes, n), path) {
                Some((i, rest)) => if rest.len() < path.len() {
                    self.lead(self.part(n, i), rest)
                } else {
                    0
                },
                None => 0,
            }
        }
    }

    /// Where a path from the root leads; `0` for nowhere. Where memory is scarce, only plain steps
    /// are followed.
    pub open spec fn place(self, path: Seq<char>) -> usize {
        if self.scarce {
            self.walk(self.root, segments(path))
        } else {
            self.lead(self.root, path)
        }
    }

    /// Whether [`place`](Heap::place) says where libfyaml goes: always, unless memory is scarce and
    /// the steps are not plain.
    pub open spec fn sure(self, path: Seq<char>) -> bool {
        !self.scarce || self.decides(self.root, segments(path))
    }

    /// Whether a series of steps from `n` is plain as far as it leads.
    pub open spec fn plain_walk(self, n: usize, segs: Seq<Seq<char>>) -> bool
        decreases segs.len(),
    {
        segs.len() == 0 || {
            let q = self.walk(n, segs.drop_last());
            self.plain_walk(n, segs.drop_last()) && (q != 0 ==> self.plain_step(q, segs.last()))
        }
    }

    /// Whether [`walk`](Heap::walk) says where libfyaml goes from `n`: the steps lead to a node, or
    /// are plain up to where they lead nowhere.
    pub open spec fn decides(self, n: usize, segs: Seq<Seq<char>>) -> bool {
        self.walk(n, segs) != 0 || self.plain_walk(n, segs)
    }

    /// The heap once the tree under `n` has been freed.
    pub open spec fn without(self, n: usize) -> Heap {
        Heap {
            nodes: Map::new(
                |m: usize| self.has(m) && !self.below(n, m),
                |m: usize| self.nodes[m],
            ),
            ..self
        }
    }

    /// The heap with one more buffer.
    pub open spec fn with_buffer(self, buffer: usize, bytes: Seq<u8>) -> Heap {
        Heap { buffers: self.buffers.insert(buffer, bytes), ..self }
    }

    /// The heap without a buffer.
    pub open spec fn without_buffer(self, buffer: usize) -> Heap {
        Heap { buffers: self.buffers.remove(buffer), ..self }
    }

    /// The heap with one more collector, or with another first error in one.
    pub open spec fn with_diag(self, diag: usize, first: Option<ParseError>) -> Heap {
        Heap { diags: self.diags.insert(diag, first), ..self }
    }

    /// The heap without a collector.
    pub open spec fn without_diag(self, diag: usize) -> Heap {
        Heap { diags: self.diags.remove(diag), ..self }
    }

    /// The heap once an error was recorded in the collector that the document reports to, if that
    /// collector is new.
    pub open spec fn noted(self, first: Option<ParseError>) -> Heap {
        if self.diags.contains_key(self.diag) && self.diags[self.diag] is None {
            self.with_diag(self.diag, first)
        } else {
            self
        }
    }

    /// The heap with another body in the node at `n`.
    pub open spec fn with_body(self, n: usize, body: Body) -> Heap {
        Heap { nodes: self.nodes.insert(n, Cell { body, ..self.nodes[n] }), ..self }
    }

    /// The heap with the node at `n` marked attached or detached.
    pub open spec fn with_attached(self, n: usize, attached: bool) -> Heap {
        Heap { nodes: self.nodes.insert(n, Cell { attached, ..self.nodes[n] }), ..self }
    }

    /// Whether `after` is this heap with one more tree, detached, under `n`.
    pub open spec fn grown(self, n: usize, after: Heap) -> bool {
        &&& n != 0
        &&& !self.has(n)
        &&& after.has(n)
        &&& !after.attached(n)
        &&& after == (Heap { nodes: after.nodes, ..self })
        &&& forall|m: usize| #[trigger]
            self.has(m) ==> after.has(m) && after.nodes[m] == self.nodes[m]
        &&& forall|m: usize| #[trigger] after.has(m) ==> self.has(m) || after.below(n, m)
        &&& self.well_formed() ==> after.well_formed()
    }

    /// The node type number of the node at `n`.
    pub open spec fn type_number(self, n: usize) -> u32 {
        match self.body(n) {
            Body::Scalar(_) => FYNT_SCALAR,
            Body::Sequence(_) => FYNT_SEQUENCE,
            Body::Mapping(_) => FYNT_MAPPING,
        }
    }

    /// Whether the node at `n` exists and may still be put into a tree.
    pub open spec fn loose(self, n: usize) -> bool {
        self.has(n) && !self.attached(n)
    }

    /// The heap with `value` in place of the value of the `i`-th pair of the mapping at `p`.
    pub open spec fn with_value(self, p: usize, i: int, value: usize) -> Heap {
        let entries = self.entries(p);
        self.without(entries[i].value).with_body(
            p,
            Body::Mapping(entries.update(i, Entry { value, ..entries[i] })),
        ).with_attached(value, true)
    }

    /// The heap with one more pair at the end of the mapping at `p`.
    pub open spec fn with_entry(self, p: usize, e: Entry) -> Heap {
        self.with_body(p, Body::Mapping(self.entries(p).push(e))).with_attached(
            e.key,
            true,
        ).with_attached(e.value, true)
    }

    /// The heap without the `i`-th pair of the mapping at `p`: the key is freed, the value is left
    /// detached.
    pub open spec fn without_entry(self, p: usize, i: int) -> Heap {
        let entries = self.entries(p);
        self.without(entries[i].key).with_body(
            p,
            Body::Mapping(entries.remove(i)),
        ).with_attached(entries[i].value, false)
    }

    /// The heap without the `i`-th pair of the mapping at `p`, key and value freed.
    pub open spec fn entry_deleted(self, p: usize, i: int) -> Heap {
        self.without_entry(p, i).without(self.entries(p)[i].value)
    }

    /// The heap without the `i`-th item of the sequence at `p`, which is freed.
    pub open spec fn item_deleted(self, p: usize, i: int) -> Heap {
        self.without_item(p, i).without(self.items(p)[i])
    }

    /// The heap with `item` put in at position `i` of the sequence at `p`.
    pub open spec fn with_item(self, p: usize, i: int, item: usize) -> Heap {
        self.with_body(p, Body::Sequence(self.items(p).insert(i, item))).with_attached(item, true)
    }

    /// The heap with the `i`-th item of the sequence at `p` taken out and left detached.
    pub open spec fn without_item(self, p: usize, i: int) -> Heap {
        self.with_body(p, Body::Sequence(self.items(p).remove(i))).with_attached(
            self.items(p)[i],
            false,
        )
    }

    /// The heap with `item` in place of the `i`-th item of the sequence at `p`, which is freed.
    pub open spec fn with_item_replaced(self, p: usize, i: int, item: usize) -> Heap {
        self.without(self.items(p)[i]).with_body(
            p,
            Body::Sequence(self.items(p).update(i, item)),
        ).with_attached(item, true)
    }

    /// Whether a path from the root leads to `p`. The empty path leads to the root. Other paths are
    /// libfyaml's to follow: always downwards, and plain steps as [`walk`](Heap::walk) does.
    pub open spec fn found(self, path: Seq<char>, p: usize) -> bool {
        &&& self.root != 0
        &&& self.has(p)
        &&& self.below(self.root, p)
        &&& path.len() == 0 ==> p == self.root
        &&& self.decides(self.root, segments(path)) ==> p == self.walk(self.root, segments(path))
        &&& self.sure(path) ==> p == self.place(path)
    }

    /// The heap with `n` as its root; the old root is freed.
    pub open spec fn with_root(self, n: usize) -> Heap {
        let rest = if self.root == 0 {
            self
        } else {
            self.without(self.root)
        };
        Heap { root: n, ..rest.with_attached(n, true) }
    }

    /// The heap with another style on the node at `n`.
    pub open spec fn with_style(self, n: usize, style: i32) -> Heap {
        Heap { nodes: self.nodes.insert(n, Cell { style, ..self.nodes[n] }), ..self }
    }

    /// The style that the node at `n` has once it was asked for `style`: that one if libfyaml grants
    /// it, or the one that it has.
    pub open spec fn settled_style(self, n: usize, style: i32) -> i32 {
        if (self.grants)(self.nodes[n], style) {
            style
        } else {
            self.nodes[n].style
        }
    }

    /// Whether libfyaml gives any sequence the style when it is asked for it.
    pub open spec fn grants_sequences(self, style: i32) -> bool {
        forall|c: Cell| c.body is Sequence ==> #[trigger] (self.grants)(c, style)
    }

    /// The heap with another tag on the node at `n`.
    pub open spec fn with_tag(self, n: usize, tag: Seq<char>) -> Heap {
        Heap { nodes: self.nodes.insert(n, Cell { tag: Some(tag), ..self.nodes[n] }), ..self }
    }

    /// Whether `p` is a mapping.
    pub open spec fn is_mapping(self, p: usize) -> bool {
        self.has(p) && self.body(p) is Mapping
    }

    /// Whether `p` is a sequence.
    pub open spec fn is_sequence(self, p: usize) -> bool {
        self.has(p) && self.body(p) is Sequence
    }

    /// Whether `after` differs from this heap only in that mappings under `n` have their pairs in
    /// the order of the comparator. Where memory is scarce, some may be as they were.
    pub open spec fn sorted_under(self, n: usize, after: Heap) -> bool {
        &&& after == (Heap { nodes: after.nodes, ..self })
        &&& after.nodes.dom() == self.nodes.dom()
        &&& forall|m: usize| #[trigger]
            self.has(m) ==> {
                ||| after.nodes[m] == self.nodes[m] && (self.scarce || !(self.below(n, m)
                    && self.is_mapping(m)))
                ||| self.below(n, m) && self.is_mapping(m) && after.nodes[m] == (Cell {
                    body: after.nodes[m].body,
                    ..self.nodes[m]
                }) && after.is_mapping(m) && sorts(
                    self.entries(m),
                    self.pair_order,
                    after.entries(m),
                )
            }
    }
}

impl Heap {
    /// Whether there is a pair at the address `pair`.
    pub open spec fn has_pair(self, pair: usize) -> bool {
        exists|p: usize, i: int| self.pair_at(pair, p, i)
    }

    /// Whether everything that a call is pointed at is there.
    pub open spec fn covers(self, call: Call) -> bool {
        match call {
            Call::DocumentSetRoot { node, .. } | Call::NodeFree { node } | Call::NodeByPath {
                node,
                ..
            } | Call::NodeGetType { node } | Call::NodeGetStyle { node } | Call::NodeSetStyle {
                node,
                ..
            } | Call::NodeSetTag { node, .. } | Call::NodeSort { node } => self.has(node),
            Call::SequenceItemCount { seq } | Call::SequenceGetByIndex { seq, .. }
            | Call::SequenceSort { seq } => self.has(seq),
            Call::SequenceIterate { seq, last } => self.has(seq) && (last == 0 || self.items(
                seq,
            ).contains(last)),
            Call::SequenceAppend { seq, item } | Call::SequenceRemove { seq, item } => self.has(seq)
                && self.has(item),
            Call::SequenceInsertBefore { seq, mark, item } => self.has(seq) && self.has(mark)
                && self.has(item),
            Call::MappingItemCount { map } | Call::MappingLookupByString { map, .. }
            | Call::MappingLookupPairByString { map, .. } | Call::MappingSort { map } => self.has(
                map,
            ),
            Call::MappingIterate { map, last } => self.has(map) && (last == 0 || pairs(
                self.entries(map),
            ).contains(last)),
            Call::MappingAppend { map, key, value } => self.has(map) && self.has(key) && self.has(
                value,
            ) && key != value,
            Call::MappingRemoveByKey { map, key } => self.has(map) && self.has(key),
            Call::PairKey { pair } | Call::PairValue { pair } => self.has_pair(pair),
            Call::PairSetValue { pair, value } => self.has_pair(pair) && self.has(value),
            Call::NodeCopy { source, .. } => self.has(source) || self.foreign.contains_key(source),
            Call::NodeBuildFromMallocString { buffer, .. } => self.buffers.contains_key(buffer),
            Call::DiagTakeFirst { diag } | Call::DiagDestroy { diag } => self.diags.contains_key(
                diag,
            ),
            _ => true,
        }
    }

    /// Whether `call` may answer `reply` and leave the heap as `after`.
    ///
    /// Calls that only look leave everything as it was. An insertion fails, without effect, exactly
    /// when the container is not of the right type, the mark is not in it, or the node is not
    /// detached; a pair is also refused when the mapping has its key already. Where memory is scarce,
    /// adding to a mapping and allocating anything may fail as well. Freeing an attached node has no
    /// effect. A buffer that a node is built from is libfyaml's, whether or not it parses. A pair is
    /// looked up, and removed, by the first key that libfyaml takes for the same. A copy looks like
    /// the original. The mark of a local tag is replaced by what it stands for; what other tags
    /// resolve to is left open. What is said of sorting a sequence and of setting a style rests on
    /// what is documented of these calls; the rest is what the source of libfyaml shows.
    pub open spec fn answers(self, call: Call, reply: Reply, after: Heap) -> bool {
        match call {
            Call::MallocCopy { text } => match reply.buffer_spec() {
                Ok(buffer) => !self.buffers.contains_key(buffer) && after == self.with_buffer(
                    buffer,
                    encode_utf8(text@),
                ),
                Err(_) => self.scarce && after == self,
            },
            Call::DiagCreate => {
                let diag = reply.pointer_spec();
                if diag == 0 {
                    self.scarce && after == self
                } else {
                    !self.diags.contains_key(diag) && after == self.with_diag(diag, None)
                }
            },
            Call::DiagTakeFirst { diag } => {
                &&& !self.scarce ==> reply.first_spec() == self.diags[diag]
                &&& after == self.without_diag(diag)
            },
            Call::DiagDestroy { diag } => after == self.without_diag(diag),
            Call::DocumentGetDiag { .. } => after == self && reply == Reply::Pointer(self.diag),
            Call::DocumentSetDiag { diag, .. } => after == (Heap { diag, ..self }),
            Call::DocumentRoot { .. } => after == self && reply == Reply::Pointer(self.root),
            Call::DocumentSetRoot { node, .. } => reply matches Reply::Status(s) && (s == 0
                <==> self.loose(node)) && after == if s == 0 {
                self.with_root(node)
            } else {
                self
            },
            Call::NodeBuildFromMallocString { buffer, len, .. } => {
                let rest = self.without_buffer(buffer);
                let bytes = self.buffers[buffer].take(len as int);
                let made = (self.snippets)(bytes);
                &&& reply matches Reply::Pointer(p)
                &&& p == 0 ==> self.scarce || made is None
                &&& p == 0 ==> after == if self.scarce {
                    rest
                } else {
                    rest.noted((self.faults)(bytes))
                }
                &&& p != 0 ==> rest.grown(p, after) && made == Some(whole_look(after.nodes, p))
            },
            Call::NodeCopy { source, .. } => {
                &&& reply matches Reply::Pointer(p)
                &&& p == 0 ==> after == self
                &&& p != 0 ==> self.grown(p, after) && look_alike(
                    self.nodes_around(source),
                    source,
                    after.nodes,
                    p,
                )
            },
            Call::NodeCreateScalarCopy { text, .. } => {
                &&& reply matches Reply::Pointer(p)
                &&& p == 0 ==> after == self && self.scarce
                &&& p != 0 ==> self.grown(p, after) && after.body(p) == Body::Scalar(text@)
                    && after.nodes[p].style != FYNS_ALIAS
            },
            Call::NodeCreateSequence { .. } => {
                &&& reply matches Reply::Pointer(p)
                &&& p == 0 ==> after == self && self.scarce
                &&& p != 0 ==> self.grown(p, after) && after.body(p) == Body::Sequence(
                    Seq::empty(),
                )
            },
            Call::NodeCreateMapping { .. } => {
                &&& reply matches Reply::Pointer(p)
                &&& p == 0 ==> after == self && self.scarce
                &&& p != 0 ==> self.grown(p, after) && after.body(p) == Body::Mapping(Seq::empty())
            },
            Call::NodeFree { node } => after == if self.loose(node) {
                self.without(node)
            } else {
                self
            },
            Call::NodeByPath { node, path } => {
                &&& after == self
                &&& reply matches Reply::Pointer(q)
                &&& q == 0 || self.has(q) && self.below(node, q)
                &&& self.decides(node, segments(path@)) ==> q == self.walk(node, segments(path@))
                &&& !self.scarce ==> q == self.lead(node, path@)
            },
            Call::NodeGetType { node } => after == self && reply == Reply::Word(
                self.type_number(node),
            ),
            Call::NodeGetStyle { node } => after == self && reply == Reply::Status(
                self.nodes[node].style,
            ),
            Call::NodeSetStyle { node, style } => {
                let settled = self.settled_style(node, style);
                reply == Reply::Status(settled) && after == self.with_style(node, settled)
            },
            Call::NodeSetTag { node, tag } => {
                &&& reply matches Reply::Status(s)
                &&& s != 0 ==> after == self
                &&& s == 0 ==> after.nodes[node].tag is Some && after == self.with_tag(
                    node,
                    after.nodes[node].tag->0,
                )
                &&& is_local_tag(tag@) ==> (s == 0 || self.scarce) && (s == 0
                    ==> after.nodes[node].tag == Some(self.local + tag@.skip(1)))
            },
            Call::SequenceItemCount { seq } => after == self && reply == Reply::Status(
                if self.is_sequence(seq) {
                    self.items(seq).len() as i32
                } else {
                    -1i32
                },
            ),
            Call::SequenceGetByIndex { seq, index } => after == self && reply == Reply::Pointer(
                item_at(self.items(seq), index as int),
            ),
            Call::SequenceIterate { seq, last } => {
                &&& after == self
                &&& reply == Reply::Pointer(next_after(self.items(seq), last))
            },
            Call::SequenceAppend { seq, item } => reply matches Reply::Status(s) && (s == 0 <==>
                self.is_sequence(seq) && self.loose(item)) && after == if s == 0 {
                self.with_item(seq, self.items(seq).len() as int, item)
            } else {
                self
            },
            Call::SequenceInsertBefore { seq, mark, item } => {
                let i = self.items(seq).index_of(mark);
                reply matches Reply::Status(s) && (s == 0 <==> self.is_sequence(seq)
                    && self.items(seq).contains(mark) && self.loose(item)) && after == if s == 0 {
                    self.with_item(seq, i, item)
                } else {
                    self
                }
            },
            Call::SequenceRemove { seq, item } => if self.is_sequence(seq) && self.items(
                seq,
            ).contains(item) {
                &&& reply == Reply::Pointer(item)
                &&& after == self.without_item(seq, self.items(seq).index_of(item))
            } else {
                &&& reply == Reply::Pointer(0)
                &&& after == self
            },
            Call::SequenceSort { seq } => {
                &&& reply matches Reply::Status(s)
                &&& s != 0 ==> after == self
                &&& !self.scarce && self.is_sequence(seq) ==> (s == 0 <==> self.sortable)
                &&& s == 0 ==> self.is_sequence(seq) && after.is_sequence(seq) && sorts(
                    self.items(seq),
                    self.item_order,
                    after.items(seq),
                ) && after == self.with_body(seq, after.body(seq)).with_style(
                    seq,
                    after.nodes[seq].style,
                )
            },
            Call::MappingLookupPairByString { map, name } => {
                let i = self.find(map, name@);
                &&& after == self
                &&& reply matches Reply::Pointer(pair)
                &&& pair == 0 || exists|j: int|
                    self.pair_at(pair, map, j) && self.first_of_kind(map, j)
                &&& self.is_mapping(map) && self.plain(name@) ==> pair == if i < self.entries(
                    map,
                ).len() {
                    self.entries(map)[i as int].pair
                } else {
                    0
                }
                &&& self.is_mapping(map) && !self.scarce ==> pair == if self.spot(map, name@) >= 0 {
                    self.entries(map)[self.spot(map, name@)].pair
                } else {
                    0
                }
            },
            Call::MappingItemCount { map } => after == self && reply == Reply::Status(
                if self.is_mapping(map) {
                    self.entries(map).len() as i32
                } else {
                    -1i32
                },
            ),
            Call::MappingIterate { map, last } => {
                &&& after == self
                &&& reply == Reply::Pointer(next_after(pairs(self.entries(map)), last))
            },
            Call::MappingLookupByString { map, name } => {
                &&& after == self
                &&& reply matches Reply::Pointer(value)
                &&& value == 0 || values(self.entries(map)).contains(value)
                &&& self.is_mapping(map) && self.plain(name@) ==> value == self.value(map, name@)
                &&& self.is_mapping(map) && !self.scarce ==> value == if self.spot(map, name@) >= 0 {
                    self.entries(map)[self.spot(map, name@)].value
                } else {
                    0
                }
            },
            Call::PairValue { pair } => {
                &&& after == self
                &&& reply matches Reply::Pointer(value)
                &&& forall|p: usize, i: int| #[trigger]
                    self.pair_at(pair, p, i) ==> value == self.entries(p)[i].value
            },
            Call::PairKey { pair } => {
                &&& after == self
                &&& reply matches Reply::Pointer(key)
                &&& forall|p: usize, i: int| #[trigger]
                    self.pair_at(pair, p, i) ==> key == self.entries(p)[i].key
            },
            Call::PairSetValue { pair, value } => {
                &&& reply matches Reply::Status(s)
                &&& s == 0 <==> self.loose(value)
                &&& s != 0 ==> after == self
                &&& s == 0 ==> forall|p: usize, i: int| #[trigger]
                    self.pair_at(pair, p, i) ==> after == self.with_value(p, i, value)
            },
            Call::MappingAppend { map, key, value } => {
                &&& reply matches Reply::Status(s)
                &&& s != 0 ==> after == self
                &&& s == 0 ==> self.is_mapping(map) && self.loose(key) && self.loose(value)
                    && (self.scarce || !self.holds_key(map, key)) && exists|pair: usize|
                    pair != 0 && !(exists|p: usize, i: int| self.pair_at(pair, p, i)) && after
                        == #[trigger] self.with_entry(map, Entry { pair, key, value })
                &&& self.takes_pair(map, key, value) ==> s == 0 || self.scarce
            },
            Call::MappingRemoveByKey { map, key } => {
                let i = keys(self.entries(map)).index_of(key);
                self.is_mapping(map) && keys(self.entries(map)).contains(key)
                    && self.first_of_kind(map, i) ==> {
                    ||| reply == Reply::Pointer(self.entries(map)[i].value) && after
                        == self.without_entry(map, i)
                    ||| self.scarce && reply == Reply::Pointer(0) && after == self
                }
            },
            Call::MappingSort { map } => {
                &&& reply matches Reply::Status(s)
                &&& s != 0 ==> after == self && (self.scarce || !self.is_mapping(map))
                &&& s == 0 ==> self.is_mapping(map) && after.is_mapping(map) && sorts(
                    self.entries(map),
                    self.pair_order,
                    after.entries(map),
                ) && after == self.with_body(map, after.body(map))
            },
            Call::NodeSort { node } => {
                &&& reply matches Reply::Status(s)
                &&& s == 0 || self.scarce
                &&& self.sorted_under(node, after)
            },
            _ => false,
        }
    }
}

impl World for Heap {
    /// A call that is pointed at something that is not there, such as a node that was freed, may do
    /// anything.
    open spec fn performs(self, call: Call, reply: Reply, after: Heap) -> bool {
        self.covers(call) ==> self.answers(call, reply, after)
    }
}

} // verus!
