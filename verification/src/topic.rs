//! Topic routing index: a mutable trie over slash-delimited topic filters
//! with single-level (`+`) and multi-level (`#`) wildcards, mapping topic
//! names to the set of subscriber identifiers that must receive a message.
use crate::frame::decoder::copy_range;
use crate::text::bytes_eq;
use vstd::prelude::*;

verus! {

/// The view of a list of byte strings.
pub open spec fn segs_view(v: Seq<Vec<u8>>) -> Seq<Seq<u8>> {
    v.map_values(|f: Vec<u8>| f@)
}

/// The set of identifiers a list of byte strings holds.
pub open spec fn ids_set(v: Seq<Vec<u8>>) -> Set<Seq<u8>> {
    Set::new(|b: Seq<u8>| exists|i: int| 0 <= i < v.len() && v[i]@ == b)
}

/// No identifier occurs twice.
pub open spec fn ids_nodup(v: Seq<Vec<u8>>) -> bool {
    forall|i: int, j: int| 0 <= i < j < v.len() ==> v[i]@ != v[j]@
}

/// Index of the first slash, or -1 when there is none.
pub open spec fn idx_of_slash(s: Seq<u8>) -> int
    decreases s.len(),
{
    if s.len() == 0 {
        -1
    } else if s[0] == 0x2F {
        0
    } else {
        let r = idx_of_slash(s.skip(1));
        if r < 0 {
            -1
        } else {
            r + 1
        }
    }
}

pub proof fn lemma_idx_of_slash(s: Seq<u8>, i: int)
    requires
        0 <= i <= s.len(),
        forall|k: int| 0 <= k < i ==> s[k] != 0x2F,
        i < s.len() ==> s[i] == 0x2F,
    ensures
        idx_of_slash(s) == if i == s.len() {
            -1int
        } else {
            i
        },
    decreases s.len(),
{
    if s.len() == 0 {
    } else if s[0] == 0x2F {
    } else {
        assert(forall|k: int| 0 <= k < i - 1 ==> s.skip(1)[k] == s[k + 1]);
        assert(i - 1 < s.skip(1).len() ==> s.skip(1)[i - 1] == s[i]);
        lemma_idx_of_slash(s.skip(1), i - 1);
    }
}

/// Splitting a byte string on `/`; every segment is kept, empty ones
/// included, and an empty string yields one empty segment.
pub open spec fn spec_split(s: Seq<u8>) -> Seq<Seq<u8>>
    decreases s.len(),
{
    let i = idx_of_slash(s);
    if i < 0 || i >= s.len() {
        seq![s]
    } else {
        seq![s.take(i)] + spec_split(s.skip(i + 1))
    }
}

/// Splits a topic name or filter into its slash-separated segments.
pub fn split_segments(buf: &Vec<u8>) -> (r: Vec<Vec<u8>>)
    ensures
        segs_view(r@) == spec_split(buf@),
        r@.len() >= 1,
{
    let r = split_from(buf, 0);
    proof {
        assert(buf@.skip(0) =~= buf@);
    }
    r
}

fn split_from(buf: &Vec<u8>, start: usize) -> (r: Vec<Vec<u8>>)
    requires
        start <= buf@.len(),
    ensures
        segs_view(r@) == spec_split(buf@.skip(start as int)),
        r@.len() >= 1,
    decreases buf@.len() - start,
{
    let ghost s = buf@.skip(start as int);
    let mut j: usize = start;
    while j < buf.len() && buf[j] != 0x2F
        invariant
            start <= j <= buf@.len(),
            forall|k: int| start <= k < j ==> buf@[k] != 0x2F,
        decreases buf@.len() - j,
    {
        j = j + 1;
    }
    proof {
        assert(forall|k: int| 0 <= k < j - start ==> s[k] == buf@[k + start] && s[k] != 0x2F);
        assert(j < buf@.len() ==> s[j - start] == buf@[j as int] && s[j - start] == 0x2F);
        lemma_idx_of_slash(s, j - start);
    }
    if j >= buf.len() {
        let seg = copy_range(buf, start, buf.len());
        let mut r: Vec<Vec<u8>> = Vec::new();
        r.push(seg);
        proof {
            assert(seg@ =~= s);
            assert(segs_view(r@) =~= seq![s]);
        }
        r
    } else {
        let seg = copy_range(buf, start, j);
        let mut r = split_from(buf, j + 1);
        let ghost old_r = r@;
        r.insert(0, seg);
        proof {
            assert(seg@ =~= s.take(j - start));
            assert(buf@.skip(j + 1) =~= s.skip(j - start + 1));
            assert(segs_view(r@) =~= seq![s.take(j - start)] + segs_view(old_r));
        }
        r
    }
}

/// A segment starting with `$` (matched only by literal filters at the
/// top level).
pub open spec fn starts_dollar(seg: Seq<u8>) -> bool {
    seg.len() > 0 && seg[0] == 0x24
}

/// Whether a topic filter, from segment `fi` on, matches a topic name,
/// from segment `ti` on: `+` matches exactly one segment, a final `#`
/// matches the rest including nothing, and at the top level neither
/// wildcard matches a segment starting with `$`.
pub open spec fn seg_match(f: Seq<Seq<u8>>, fi: int, t: Seq<Seq<u8>>, ti: int, root: bool) -> bool
    decreases f.len() - fi,
{
    if !(0 <= fi <= f.len() && 0 <= ti <= t.len()) {
        false
    } else if fi == f.len() {
        ti == t.len()
    } else if f[fi] == seq![0x23u8] {
        fi + 1 == f.len() && !(root && ti < t.len() && starts_dollar(t[ti]))
    } else if ti == t.len() {
        false
    } else if f[fi] == seq![0x2Bu8] {
        !(root && starts_dollar(t[ti])) && seg_match(f, fi + 1, t, ti + 1, false)
    } else {
        f[fi] == t[ti] && seg_match(f, fi + 1, t, ti + 1, false)
    }
}

/// Whether a topic name matches a topic filter, both as segment lists.
pub open spec fn filter_matches(f: Seq<Seq<u8>>, t: Seq<Seq<u8>>) -> bool {
    seg_match(f, 0, t, 0, true)
}

/// One trie node: the segment label of its edge, indices of its children,
/// the subscribers whose filter ends here, and the multi-level (`#`)
/// subscribers anchored here.
#[derive(Debug, Clone, PartialEq)]
pub struct TopicNode {
    pub label: Vec<u8>,
    pub children: Vec<usize>,
    pub topic_subscribers_id: Vec<Vec<u8>>,
    pub multi_level_topic_subscribers_id: Vec<Vec<u8>>,
}

#[verifier::ext_equal]
pub struct TopicNodeView {
    pub label: Seq<u8>,
    pub children: Seq<int>,
    pub exact: Set<Seq<u8>>,
    pub hash: Set<Seq<u8>>,
}

impl View for TopicNode {
    type V = TopicNodeView;

    open spec fn view(&self) -> TopicNodeView {
        TopicNodeView {
            label: self.label@,
            children: self.children@.map_values(|c: usize| c as int),
            exact: ids_set(self.topic_subscribers_id@),
            hash: ids_set(self.multi_level_topic_subscribers_id@),
        }
    }
}

/// Node zero is the root; every edge points strictly forward, so the
/// structure is a tree laid out in creation order.
pub open spec fn wf_nodes(nodes: Seq<TopicNodeView>) -> bool {
    &&& nodes.len() >= 1
    &&& forall|k: int, j: int|
        0 <= k < nodes.len() && 0 <= j < nodes[k].children.len() ==> k < #[trigger] nodes[k].children[j]
            < nodes.len()
}

/// First child of `children` (scanning from position `k`) whose label is
/// `label`.
pub open spec fn find_child(
    nodes: Seq<TopicNodeView>,
    children: Seq<int>,
    label: Seq<u8>,
    k: int,
) -> Option<int>
    decreases children.len() - k,
{
    if !(0 <= k <= children.len()) {
        None
    } else if k == children.len() {
        None
    } else {
        let c = children[k];
        if 0 <= c < nodes.len() && nodes[c].label == label {
            Some(c)
        } else {
            find_child(nodes, children, label, k + 1)
        }
    }
}

/// The subscribers a topic reaches from node `idx` with segments from
/// `ti` on: every visited node's `#` set, the `exact` set where the topic
/// ends, and recursion into the literal child and the `+` child. At the
/// top level, `$`-prefixed segments hide both wildcard routes.
pub open spec fn match_ids(
    nodes: Seq<TopicNodeView>,
    idx: int,
    t: Seq<Seq<u8>>,
    ti: int,
    root: bool,
) -> Set<Seq<u8>>
    decreases t.len() - ti,
{
    if !(0 <= idx < nodes.len() && 0 <= ti <= t.len()) {
        Set::empty()
    } else {
        let node = nodes[idx];
        let guard = root && ti < t.len() && starts_dollar(t[ti]);
        let hash_part = if guard {
            Set::<Seq<u8>>::empty()
        } else {
            node.hash
        };
        if ti == t.len() {
            hash_part + node.exact
        } else {
            let lit = match find_child(nodes, node.children, t[ti], 0) {
                Some(c) => match_ids(nodes, c, t, ti + 1, false),
                None => Set::<Seq<u8>>::empty(),
            };
            let plus = if guard {
                Set::<Seq<u8>>::empty()
            } else {
                match find_child(nodes, node.children, seq![0x2Bu8], 0) {
                    Some(c) => match_ids(nodes, c, t, ti + 1, false),
                    None => Set::<Seq<u8>>::empty(),
                }
            };
            hash_part + lit + plus
        }
    }
}

/// The trie after registering `id` under the filter, walking or creating
/// the labelled path from node `idx` with filter segments from `fi` on. A
/// `#` segment registers in the current node's multi-level set.
pub open spec fn spec_subscribe(
    nodes: Seq<TopicNodeView>,
    idx: int,
    f: Seq<Seq<u8>>,
    fi: int,
    id: Seq<u8>,
) -> Seq<TopicNodeView>
    decreases f.len() - fi,
{
    if !(0 <= idx < nodes.len() && 0 <= fi <= f.len()) {
        nodes
    } else {
        let node = nodes[idx];
        if fi == f.len() {
            nodes.update(
                idx,
                TopicNodeView {
                    label: node.label,
                    children: node.children,
                    exact: node.exact.insert(id),
                    hash: node.hash,
                },
            )
        } else if f[fi] == seq![0x23u8] {
            nodes.update(
                idx,
                TopicNodeView {
                    label: node.label,
                    children: node.children,
                    exact: node.exact,
                    hash: node.hash.insert(id),
                },
            )
        } else {
            match find_child(nodes, node.children, f[fi], 0) {
                Some(c) => spec_subscribe(nodes, c, f, fi + 1, id),
                None => {
                    let fresh = TopicNodeView {
                        label: f[fi],
                        children: Seq::empty(),
                        exact: Set::empty(),
                        hash: Set::empty(),
                    };
                    let ext = nodes.push(fresh).update(
                        idx,
                        TopicNodeView {
                            label: node.label,
                            children: node.children.push(nodes.len() as int),
                            exact: node.exact,
                            hash: node.hash,
                        },
                    );
                    spec_subscribe(ext, nodes.len() as int, f, fi + 1, id)
                },
            }
        }
    }
}

/// The topic trie: all nodes in one arena, node zero the root.
#[derive(Debug, Clone, PartialEq)]
pub struct TopicTree {
    pub nodes: Vec<TopicNode>,
}

impl View for TopicTree {
    type V = Seq<TopicNodeView>;

    open spec fn view(&self) -> Seq<TopicNodeView> {
        self.nodes@.map_values(|n: TopicNode| n@)
    }
}

/// Adds `id` to an identifier list unless it is already present.
fn insert_id(ids: &mut Vec<Vec<u8>>, id: &Vec<u8>)
    ensures
        ids_set(final(ids)@) == ids_set(old(ids)@).insert(id@),
        ids_nodup(old(ids)@) ==> ids_nodup(final(ids)@),
{
    let ghost oldv = ids@;
    let mut i: usize = 0;
    while i < ids.len()
        invariant
            i <= ids@.len(),
            ids@ == oldv,
            forall|j: int| 0 <= j < i ==> ids@[j]@ != id@,
        decreases ids@.len() - i,
    {
        if bytes_eq(&ids[i], id) {
            proof {
                assert(oldv[i as int]@ == id@);
                assert(ids_set(oldv).contains(id@));
                assert(ids_set(oldv).insert(id@) =~= ids_set(oldv));
            }
            return ;
        }
        i = i + 1;
    }
    let fresh = copy_range(id, 0, id.len());
    proof {
        assert(fresh@ =~= id@);
    }
    ids.push(fresh);
    proof {
        assert forall|b: Seq<u8>| #[trigger] ids_set(ids@).contains(b) implies ids_set(
            oldv,
        ).insert(id@).contains(b) by {
            let w = choose|w: int| 0 <= w < ids@.len() && ids@[w]@ == b;
            if w < oldv.len() {
                assert(oldv[w]@ == b);
            } else {
                assert(b == id@);
            }
        }
        assert forall|b: Seq<u8>| ids_set(oldv).insert(id@).contains(b) implies #[trigger] ids_set(
            ids@,
        ).contains(b) by {
            if b == id@ {
                assert(ids@[oldv.len() as int]@ == b);
            } else {
                let w = choose|w: int| 0 <= w < oldv.len() && oldv[w]@ == b;
                assert(ids@[w]@ == b);
            }
        }
        assert(ids_set(ids@) =~= ids_set(oldv).insert(id@));
    }
}

/// First child of node `cur` labelled `label`, if any.
fn find_child_exec(tree: &TopicTree, cur: usize, label: &Vec<u8>) -> (r: Option<usize>)
    requires
        wf_nodes(tree@),
        cur < tree@.len(),
    ensures
        (match r {
            Some(c) => find_child(tree@, tree@[cur as int].children, label@, 0) == Some(c as int)
                && cur < c < tree@.len(),
            None => find_child(tree@, tree@[cur as int].children, label@, 0) is None,
        }),
{
    let ghost nodes = tree@;
    let ghost ch = tree@[cur as int].children;
    let n = tree.nodes[cur].children.len();
    let mut k: usize = 0;
    while k < n
        invariant
            wf_nodes(nodes),
            nodes == tree@,
            cur < nodes.len(),
            ch == nodes[cur as int].children,
            n == ch.len(),
            k <= n,
            find_child(nodes, ch, label@, 0) == find_child(nodes, ch, label@, k as int),
        decreases n - k,
    {
        let c = tree.nodes[cur].children[k];
        proof {
            assert(ch[k as int] == c as int);
            assert(cur < c < nodes.len());
        }
        if bytes_eq(&tree.nodes[c].label, label) {
            proof {
                assert(nodes[c as int].label == label@);
            }
            return Some(c);
        }
        proof {
            assert(nodes[c as int].label != label@);
        }
        k = k + 1;
    }
    None
}

impl TopicTree {
    /// A trie holding only an empty root.
    pub fn new_root() -> (r: TopicTree)
        ensures
            wf_nodes(r@),
            r@.len() == 1,
            r@[0].exact == Set::<Seq<u8>>::empty(),
            r@[0].hash == Set::<Seq<u8>>::empty(),
            r@[0].children == Seq::<int>::empty(),
    {
        let root = TopicNode {
            label: Vec::new(),
            children: Vec::new(),
            topic_subscribers_id: Vec::new(),
            multi_level_topic_subscribers_id: Vec::new(),
        };
        let mut nodes: Vec<TopicNode> = Vec::new();
        nodes.push(root);
        let r = TopicTree { nodes };
        proof {
            assert(r@.len() == 1);
            assert(ids_set(Seq::<Vec<u8>>::empty()) =~= Set::<Seq<u8>>::empty());
            assert(r@[0].children =~= Seq::<int>::empty());
        }
        r
    }

    /// Registers `topic_subscriber_id` under the filter `topic_str`,
    /// walking or creating the path of its segments.
    pub fn subscribe(&mut self, topic_str: &Vec<u8>, topic_subscriber_id: &Vec<u8>)
        requires
            wf_nodes(old(self)@),
        ensures
            wf_nodes(final(self)@),
            final(self)@ == spec_subscribe(
                old(self)@,
                0,
                spec_split(topic_str@),
                0,
                topic_subscriber_id@,
            ),
    {
        let segs = split_segments(topic_str);
        self.subscribe_at(0, &segs, 0, topic_subscriber_id);
    }

    fn subscribe_at(&mut self, cur: usize, segs: &Vec<Vec<u8>>, i: usize, id: &Vec<u8>)
        requires
            wf_nodes(old(self)@),
            cur < old(self)@.len(),
            i <= segs@.len(),
        ensures
            wf_nodes(final(self)@),
            final(self)@ == spec_subscribe(old(self)@, cur as int, segs_view(segs@), i as int, id@),
            final(self)@.len() >= old(self)@.len(),
        decreases segs@.len() - i,
    {
        let ghost nodes0 = self@;
        let ghost fv = segs_view(segs@);
        if i == segs.len() {
            insert_id(&mut self.nodes[cur].topic_subscribers_id, id);
            proof {
                assert(self@ =~~= spec_subscribe(nodes0, cur as int, fv, i as int, id@));
            }
            return ;
        }
        let seg = &segs[i];
        if seg.len() == 1 && seg[0] == 0x23 {
            proof {
                assert(fv[i as int] =~= seq![0x23u8]);
            }
            insert_id(&mut self.nodes[cur].multi_level_topic_subscribers_id, id);
            proof {
                assert(self@ =~~= spec_subscribe(nodes0, cur as int, fv, i as int, id@));
            }
            return ;
        }
        proof {
            assert(fv[i as int] == segs@[i as int]@);
            if fv[i as int] == seq![0x23u8] {
                assert(segs@[i as int]@.len() == 1 && segs@[i as int]@[0] == 0x23);
                assert(false);
            }
        }
        match find_child_exec(self, cur, seg) {
            Some(c) => {
                self.subscribe_at(c, segs, i + 1, id);
            },
            None => {
                let n0 = self.nodes.len();
                let fresh = TopicNode {
                    label: copy_range(seg, 0, seg.len()),
                    children: Vec::new(),
                    topic_subscribers_id: Vec::new(),
                    multi_level_topic_subscribers_id: Vec::new(),
                };
                proof {
                    assert(fresh@.label =~= fv[i as int]);
                    assert(fresh@.children =~= Seq::<int>::empty());
                    assert(fresh@.exact =~= Set::<Seq<u8>>::empty());
                    assert(fresh@.hash =~= Set::<Seq<u8>>::empty());
                }
                self.nodes.push(fresh);
                self.nodes[cur].children.push(n0);
                let ghost ext = self@;
                proof {
                    let fresh_view = TopicNodeView {
                        label: fv[i as int],
                        children: Seq::empty(),
                        exact: Set::empty(),
                        hash: Set::empty(),
                    };
                    let node = nodes0[cur as int];
                    assert(ext =~~= nodes0.push(fresh_view).update(
                        cur as int,
                        TopicNodeView {
                            label: node.label,
                            children: node.children.push(nodes0.len() as int),
                            exact: node.exact,
                            hash: node.hash,
                        },
                    ));
                    assert(wf_nodes(ext));
                }
                self.subscribe_at(n0, segs, i + 1, id);
            },
        }
    }

    /// Every subscriber the topic name reaches, deduplicated, or `None`
    /// when there is none.
    pub fn get_subscribers_id(&self, topic_str: &Vec<u8>) -> (r: Option<Vec<Vec<u8>>>)
        requires
            wf_nodes(self@),
        ensures
            (match r {
                Some(v) => ids_set(v@) == match_ids(self@, 0, spec_split(topic_str@), 0, true)
                    && v@.len() > 0 && ids_nodup(v@),
                None => match_ids(self@, 0, spec_split(topic_str@), 0, true) == Set::<
                    Seq<u8>,
                >::empty(),
            }),
    {
        let segs = split_segments(topic_str);
        let mut acc: Vec<Vec<u8>> = Vec::new();
        self.match_at(0, &segs, 0, true, &mut acc);
        proof {
            assert(ids_set(Seq::<Vec<u8>>::empty()) =~= Set::<Seq<u8>>::empty());
            assert(Set::<Seq<u8>>::empty() + match_ids(self@, 0, spec_split(topic_str@), 0, true)
                =~= match_ids(self@, 0, spec_split(topic_str@), 0, true));
        }
        if acc.len() == 0 {
            proof {
                assert forall|b: Seq<u8>| !(match_ids(self@, 0, spec_split(topic_str@), 0, true)
                    .contains(b)) by {
                    assert(!ids_set(acc@).contains(b));
                }
                assert(match_ids(self@, 0, spec_split(topic_str@), 0, true) =~= Set::<
                    Seq<u8>,
                >::empty());
            }
            None
        } else {
            Some(acc)
        }
    }

    fn match_at(&self, cur: usize, segs: &Vec<Vec<u8>>, i: usize, root: bool, acc: &mut Vec<
        Vec<u8>,
    >)
        requires
            wf_nodes(self@),
            cur < self@.len(),
            i <= segs@.len(),
        ensures
            ids_set(final(acc)@) == ids_set(old(acc)@) + match_ids(
                self@,
                cur as int,
                segs_view(segs@),
                i as int,
                root,
            ),
            ids_nodup(old(acc)@) ==> ids_nodup(final(acc)@),
        decreases segs@.len() - i,
    {
        let ghost nodes = self@;
        let ghost tv = segs_view(segs@);
        let ghost acc0 = old(acc)@;
        let guard: bool = root && i < segs.len() && segs[i].len() > 0 && segs[i][0] == 0x24;
        proof {
            assert(guard == (root && i < tv.len() && starts_dollar(tv[i as int])));
        }
        if !guard {
            extend_ids(acc, &self.nodes[cur].multi_level_topic_subscribers_id);
        }
        let ghost acc1 = acc@;
        if i == segs.len() {
            extend_ids(acc, &self.nodes[cur].topic_subscribers_id);
            proof {
                assert(ids_set(acc@) =~= ids_set(acc0) + match_ids(
                    nodes,
                    cur as int,
                    tv,
                    i as int,
                    root,
                ));
            }
            return ;
        }
        let lit = find_child_exec(self, cur, &segs[i]);
        match lit {
            Some(c) => {
                proof {
                    assert(tv[i as int] == segs@[i as int]@);
                }
                self.match_at(c, segs, i + 1, false, acc);
            },
            None => {
                proof {
                    assert(tv[i as int] == segs@[i as int]@);
                }
            },
        }
        let ghost acc2 = acc@;
        if !guard {
            let mut plus: Vec<u8> = Vec::new();
            plus.push(0x2B);
            proof {
                assert(plus@ =~= seq![0x2Bu8]);
            }
            match find_child_exec(self, cur, &plus) {
                Some(c) => {
                    self.match_at(c, segs, i + 1, false, acc);
                },
                None => {},
            }
        }
        proof {
            assert(ids_set(acc@) =~= ids_set(acc0) + match_ids(
                nodes,
                cur as int,
                tv,
                i as int,
                root,
            ));
        }
    }
}

/// Adds every identifier of `ids` to `acc`, without duplicates.
fn extend_ids(acc: &mut Vec<Vec<u8>>, ids: &Vec<Vec<u8>>)
    ensures
        ids_set(final(acc)@) == ids_set(old(acc)@) + ids_set(ids@),
        ids_nodup(old(acc)@) ==> ids_nodup(final(acc)@),
{
    let ghost acc0 = old(acc)@;
    let mut k: usize = 0;
    proof {
        assert(ids_set(ids@.take(0)) =~= Set::<Seq<u8>>::empty());
        assert(ids_set(acc0) + ids_set(ids@.take(0)) =~= ids_set(acc0));
    }
    while k < ids.len()
        invariant
            k <= ids@.len(),
            ids_set(acc@) == ids_set(acc0) + ids_set(ids@.take(k as int)),
            ids_nodup(acc0) ==> ids_nodup(acc@),
        decreases ids@.len() - k,
    {
        insert_id(acc, &ids[k]);
        proof {
            assert forall|b: Seq<u8>| #[trigger] ids_set(ids@.take(k + 1)).contains(b) implies
                ids_set(ids@.take(k as int)).contains(b) || b == ids@[k as int]@ by {
                let w = choose|w: int| 0 <= w < ids@.take(k + 1).len() && #[trigger] ids@.take(k + 1)[w]@ == b;
                if w < k {
                    assert(ids@.take(k as int)[w]@ == b);
                }
            }
            assert forall|b: Seq<u8>|
                ids_set(ids@.take(k as int)).contains(b) || b == ids@[k as int]@ implies #[trigger]
                ids_set(ids@.take(k + 1)).contains(b) by {
                if b == ids@[k as int]@ {
                    assert(ids@.take(k + 1)[k as int]@ == b);
                } else {
                    let w = choose|w: int| 0 <= w < k && ids@.take(k as int)[w]@ == b;
                    assert(ids@.take(k + 1)[w]@ == b);
                }
            }
            assert(ids_set(ids@.take(k + 1)) =~= ids_set(ids@.take(k as int)).insert(
                ids@[k as int]@,
            ));
            assert(ids_set(acc@) =~= ids_set(acc0) + ids_set(ids@.take(k + 1)));
        }
        k = k + 1;
    }
    proof {
        assert(ids@.take(ids@.len() as int) =~= ids@);
    }
}

/// A failed child search means no child in range carries the label.
proof fn lemma_find_child_none(nodes: Seq<TopicNodeView>, children: Seq<int>, label: Seq<u8>, k: int)
    requires
        0 <= k <= children.len(),
        find_child(nodes, children, label, k) is None,
    ensures
        forall|j: int| k <= j < children.len() ==> !(0 <= #[trigger] children[j] < nodes.len()
            && nodes[children[j]].label == label),
    decreases children.len() - k,
{
    if k < children.len() {
        lemma_find_child_none(nodes, children, label, k + 1);
    }
}

/// A child search only looks at labels of in-range children, so it is
/// unchanged in a grown arena that keeps those labels.
proof fn lemma_find_child_stable(
    nodes: Seq<TopicNodeView>,
    r: Seq<TopicNodeView>,
    children: Seq<int>,
    label: Seq<u8>,
    k: int,
)
    requires
        0 <= k <= children.len(),
        r.len() >= nodes.len(),
        forall|m: int| 0 <= m < nodes.len() ==> #[trigger] r[m].label == nodes[m].label,
        forall|j: int| k <= j < children.len() ==> 0 <= #[trigger] children[j] < nodes.len(),
    ensures
        find_child(r, children, label, k) == find_child(nodes, children, label, k),
    decreases children.len() - k,
{
    if k < children.len() {
        lemma_find_child_stable(nodes, r, children, label, k + 1);
    }
}

/// When no earlier entry matches and the last one does, the search finds
/// the last entry.
proof fn lemma_find_child_last(r: Seq<TopicNodeView>, children: Seq<int>, label: Seq<u8>, k: int)
    requires
        0 <= k < children.len(),
        forall|j: int| k <= j < children.len() - 1 ==> !(0 <= #[trigger] children[j] < r.len()
            && r[children[j]].label == label),
        0 <= children[children.len() - 1] < r.len(),
        r[children[children.len() - 1]].label == label,
    ensures
        find_child(r, children, label, k) == Some(children[children.len() - 1]),
    decreases children.len() - k,
{
    if k < children.len() - 1 {
        lemma_find_child_last(r, children, label, k + 1);
    }
}

/// Registering a filter grows the arena, keeps it well-formed, keeps
/// every label, and leaves every node before the starting index alone.
proof fn lemma_subscribe_preserves(
    nodes: Seq<TopicNodeView>,
    idx: int,
    f: Seq<Seq<u8>>,
    fi: int,
    id: Seq<u8>,
)
    requires
        wf_nodes(nodes),
        0 <= idx < nodes.len(),
        0 <= fi <= f.len(),
    ensures
        ({
            let r = spec_subscribe(nodes, idx, f, fi, id);
            &&& r.len() >= nodes.len()
            &&& wf_nodes(r)
            &&& forall|k: int| 0 <= k < idx ==> r[k] == #[trigger] nodes[k]
            &&& forall|k: int| 0 <= k < nodes.len() ==> #[trigger] r[k].label == nodes[k].label
        }),
    decreases f.len() - fi,
{
    let r = spec_subscribe(nodes, idx, f, fi, id);
    let node = nodes[idx];
    if fi == f.len() {
    } else if f[fi] == seq![0x23u8] {
    } else {
        match find_child(nodes, node.children, f[fi], 0) {
            Some(c) => {
                assert(exists|j: int| 0 <= j < node.children.len() && node.children[j] == c) by {
                    lemma_find_child_gives_member(nodes, node.children, f[fi], 0);
                }
                assert(idx < c < nodes.len());
                lemma_subscribe_preserves(nodes, c, f, fi + 1, id);
            },
            None => {
                let n0 = nodes.len() as int;
                let fresh = TopicNodeView {
                    label: f[fi],
                    children: Seq::empty(),
                    exact: Set::empty(),
                    hash: Set::empty(),
                };
                let ext = nodes.push(fresh).update(
                    idx,
                    TopicNodeView {
                        label: node.label,
                        children: node.children.push(n0),
                        exact: node.exact,
                        hash: node.hash,
                    },
                );
                assert(wf_nodes(ext));
                lemma_subscribe_preserves(ext, n0, f, fi + 1, id);
            },
        }
    }
}

/// A successful child search returns one of the children.
proof fn lemma_find_child_gives_member(
    nodes: Seq<TopicNodeView>,
    children: Seq<int>,
    label: Seq<u8>,
    k: int,
)
    requires
        0 <= k <= children.len(),
    ensures
        find_child(nodes, children, label, k) matches Some(c) ==> (exists|j: int|
            k <= j < children.len() && children[j] == c) && 0 <= c < nodes.len()
            && nodes[c].label == label,
    decreases children.len() - k,
{
    if k < children.len() {
        lemma_find_child_gives_member(nodes, children, label, k + 1);
        if find_child(nodes, children, label, k) is Some {
            let c = find_child(nodes, children, label, k)->0;
            if children[k] == c && 0 <= c < nodes.len() && nodes[c].label == label {
                assert(k <= k < children.len() && children[k] == c);
            }
        }
    }
}

/// Law: registering a subscription makes every matching topic reach it.
/// For any trie, filter F, identifier S and topic T, if T matches F then
/// after subscribing (F, S) the match set of T contains S.
pub proof fn lemma_subscribe_then_match(
    nodes: Seq<TopicNodeView>,
    idx: int,
    f: Seq<Seq<u8>>,
    fi: int,
    t: Seq<Seq<u8>>,
    ti: int,
    root: bool,
    id: Seq<u8>,
)
    requires
        wf_nodes(nodes),
        0 <= idx < nodes.len(),
        seg_match(f, fi, t, ti, root),
    ensures
        match_ids(spec_subscribe(nodes, idx, f, fi, id), idx, t, ti, root).contains(id),
    decreases f.len() - fi,
{
    let r = spec_subscribe(nodes, idx, f, fi, id);
    let node = nodes[idx];
    if fi == f.len() {
        assert(ti == t.len());
        assert(r[idx].exact.contains(id));
    } else if f[fi] == seq![0x23u8] {
        assert(!(root && ti < t.len() && starts_dollar(t[ti])));
        assert(r[idx].hash.contains(id));
    } else {
        assert(ti < t.len());
        let lbl = f[fi];
        let is_plus = lbl == seq![0x2Bu8];
        let tlbl = if is_plus {
            seq![0x2Bu8]
        } else {
            t[ti]
        };
        assert(is_plus || lbl == t[ti]);
        match find_child(nodes, node.children, lbl, 0) {
            Some(c) => {
                lemma_find_child_gives_member(nodes, node.children, lbl, 0);
                assert(exists|j: int| 0 <= j < node.children.len() && node.children[j] == c) by {
                    lemma_find_child_gives_member(nodes, node.children, lbl, 0);
                }
                assert(idx < c < nodes.len());
                lemma_subscribe_preserves(nodes, c, f, fi + 1, id);
                assert(r[idx] == nodes[idx]);
                lemma_find_child_stable(nodes, r, node.children, tlbl, 0);
                assert(find_child(r, r[idx].children, tlbl, 0) == find_child(
                    nodes,
                    node.children,
                    tlbl,
                    0,
                ));
                assert(find_child(nodes, node.children, tlbl, 0) == Some(c));
                lemma_subscribe_then_match(nodes, c, f, fi + 1, t, ti + 1, false, id);
                assert(match_ids(r, c, t, ti + 1, false).contains(id));
            },
            None => {
                let n0 = nodes.len() as int;
                let fresh = TopicNodeView {
                    label: lbl,
                    children: Seq::empty(),
                    exact: Set::empty(),
                    hash: Set::empty(),
                };
                let newparent = TopicNodeView {
                    label: node.label,
                    children: node.children.push(n0),
                    exact: node.exact,
                    hash: node.hash,
                };
                let ext = nodes.push(fresh).update(idx, newparent);
                assert(wf_nodes(ext));
                assert(r == spec_subscribe(ext, n0, f, fi + 1, id));
                lemma_subscribe_preserves(ext, n0, f, fi + 1, id);
                assert(r[idx] == ext[idx]);
                assert(r[idx].children == node.children.push(n0));
                lemma_find_child_none(nodes, node.children, lbl, 0);
                assert(r[n0].label == ext[n0].label);
                assert(ext[n0].label == lbl);
                assert forall|j: int| 0 <= j < r[idx].children.len() - 1 implies !(0 <= #[trigger]
                    r[idx].children[j] < r.len() && r[r[idx].children[j]].label == tlbl) by {
                    let cc = node.children[j];
                    assert(r[idx].children[j] == cc);
                    assert(0 <= cc < nodes.len());
                    assert(r[cc].label == ext[cc].label);
                    assert(ext[cc].label == nodes[cc].label);
                    assert(nodes[cc].label != lbl);
                    assert(tlbl == lbl);
                }
                assert(r[idx].children[r[idx].children.len() - 1] == n0);
                lemma_find_child_last(r, r[idx].children, tlbl, 0);
                assert(find_child(r, r[idx].children, tlbl, 0) == Some(n0));
                lemma_subscribe_then_match(ext, n0, f, fi + 1, t, ti + 1, false, id);
                assert(match_ids(r, n0, t, ti + 1, false).contains(id));
            },
        }
    }
}

/// Law: registering the same subscription twice leaves the trie exactly
/// as one registration does.
pub proof fn lemma_subscribe_idempotent(
    nodes: Seq<TopicNodeView>,
    idx: int,
    f: Seq<Seq<u8>>,
    fi: int,
    id: Seq<u8>,
)
    requires
        wf_nodes(nodes),
        0 <= idx < nodes.len(),
        0 <= fi <= f.len(),
    ensures
        spec_subscribe(spec_subscribe(nodes, idx, f, fi, id), idx, f, fi, id) == spec_subscribe(
            nodes,
            idx,
            f,
            fi,
            id,
        ),
    decreases f.len() - fi,
{
    let node = nodes[idx];
    let r1 = spec_subscribe(nodes, idx, f, fi, id);
    if fi == f.len() {
        assert(r1[idx].exact.insert(id) =~= node.exact.insert(id));
        assert(spec_subscribe(r1, idx, f, fi, id) =~~= r1);
    } else if f[fi] == seq![0x23u8] {
        assert(r1[idx].hash.insert(id) =~= node.hash.insert(id));
        assert(spec_subscribe(r1, idx, f, fi, id) =~~= r1);
    } else {
        let lbl = f[fi];
        match find_child(nodes, node.children, lbl, 0) {
            Some(c) => {
                lemma_find_child_gives_member(nodes, node.children, lbl, 0);
                assert(exists|j: int| 0 <= j < node.children.len() && node.children[j] == c) by {
                    lemma_find_child_gives_member(nodes, node.children, lbl, 0);
                }
                assert(idx < c < nodes.len());
                lemma_subscribe_preserves(nodes, c, f, fi + 1, id);
                assert(r1[idx] == nodes[idx]);
                lemma_find_child_stable(nodes, r1, node.children, lbl, 0);
                assert(find_child(r1, r1[idx].children, lbl, 0) == Some(c));
                lemma_subscribe_idempotent(nodes, c, f, fi + 1, id);
            },
            None => {
                let n0 = nodes.len() as int;
                let fresh = TopicNodeView {
                    label: lbl,
                    children: Seq::empty(),
                    exact: Set::empty(),
                    hash: Set::empty(),
                };
                let newparent = TopicNodeView {
                    label: node.label,
                    children: node.children.push(n0),
                    exact: node.exact,
                    hash: node.hash,
                };
                let ext = nodes.push(fresh).update(idx, newparent);
                assert(wf_nodes(ext));
                assert(r1 == spec_subscribe(ext, n0, f, fi + 1, id));
                lemma_subscribe_preserves(ext, n0, f, fi + 1, id);
                assert(r1[idx] == ext[idx]);
                assert(r1[idx].children == node.children.push(n0));
                lemma_find_child_none(nodes, node.children, lbl, 0);
                assert(r1[n0].label == ext[n0].label);
                assert(ext[n0].label == lbl);
                assert forall|j: int| 0 <= j < r1[idx].children.len() - 1 implies !(0 <= #[trigger]
                    r1[idx].children[j] < r1.len() && r1[r1[idx].children[j]].label == lbl) by {
                    let cc = node.children[j];
                    assert(r1[idx].children[j] == cc);
                    assert(0 <= cc < nodes.len());
                    assert(r1[cc].label == ext[cc].label);
                    assert(ext[cc].label == nodes[cc].label);
                    assert(nodes[cc].label != lbl);
                }
                assert(r1[idx].children[r1[idx].children.len() - 1] == n0);
                lemma_find_child_last(r1, r1[idx].children, lbl, 0);
                assert(find_child(r1, r1[idx].children, lbl, 0) == Some(n0));
                lemma_subscribe_idempotent(ext, n0, f, fi + 1, id);
            },
        }
    }
}

/// One child list extends another: the old entries are kept in place and
/// every appended edge points at or past `bound`.
pub open spec fn children_extended(ac: Seq<int>, bc: Seq<int>, bound: int) -> bool {
    &&& ac.len() <= bc.len()
    &&& (forall|j: int| 0 <= j < ac.len() ==> bc[j] == #[trigger] ac[j])
    &&& (forall|j: int| ac.len() <= j < bc.len() ==> #[trigger] bc[j] >= bound)
}

/// The arena `b` is `a` after registering `id` once: labels are kept,
/// child lists only grow with edges into the new zone, old subscriber
/// sets change at most by `id` joining them, and every node of the new
/// zone carries nothing but `id`.
pub open spec fn extends_with(a: Seq<TopicNodeView>, b: Seq<TopicNodeView>, id: Seq<u8>) -> bool {
    &&& a.len() <= b.len()
    &&& (forall|k: int| 0 <= k < a.len() ==> #[trigger] b[k].label == a[k].label)
    &&& (forall|k: int| 0 <= k < a.len() ==> children_extended(
        a[k].children,
        (#[trigger] b[k]).children,
        a.len() as int,
    ))
    &&& (forall|k: int| 0 <= k < a.len() ==> ((#[trigger] b[k]).exact == a[k].exact || b[k].exact
        == a[k].exact.insert(id)))
    &&& (forall|k: int| 0 <= k < a.len() ==> ((#[trigger] b[k]).hash == a[k].hash || b[k].hash
        == a[k].hash.insert(id)))
    &&& (forall|k: int| a.len() <= k < b.len() ==> (#[trigger] b[k]).exact.subset_of(
        Set::empty().insert(id),
    ))
    &&& (forall|k: int| a.len() <= k < b.len() ==> (#[trigger] b[k]).hash.subset_of(
        Set::empty().insert(id),
    ))
}

proof fn lemma_extends_trans(
    a: Seq<TopicNodeView>,
    b: Seq<TopicNodeView>,
    c: Seq<TopicNodeView>,
    id: Seq<u8>,
)
    requires
        extends_with(a, b, id),
        extends_with(b, c, id),
    ensures
        extends_with(a, c, id),
{
    assert forall|k: int| 0 <= k < a.len() implies children_extended(
        a[k].children,
        (#[trigger] c[k]).children,
        a.len() as int,
    ) by {
        assert(children_extended(a[k].children, b[k].children, a.len() as int));
        assert(children_extended(b[k].children, c[k].children, b.len() as int));
        assert forall|j: int| a[k].children.len() <= j < c[k].children.len() implies #[trigger]
            c[k].children[j] >= a.len() by {
            if j < b[k].children.len() {
                assert(c[k].children[j] == b[k].children[j]);
            }
        }
    }
    assert forall|k: int| 0 <= k < a.len() implies ((#[trigger] c[k]).exact == a[k].exact
        || c[k].exact == a[k].exact.insert(id)) by {
        if b[k].exact == a[k].exact.insert(id) && c[k].exact == b[k].exact.insert(id) {
            assert(a[k].exact.insert(id).insert(id) =~= a[k].exact.insert(id));
        }
    }
    assert forall|k: int| 0 <= k < a.len() implies ((#[trigger] c[k]).hash == a[k].hash
        || c[k].hash == a[k].hash.insert(id)) by {
        if b[k].hash == a[k].hash.insert(id) && c[k].hash == b[k].hash.insert(id) {
            assert(a[k].hash.insert(id).insert(id) =~= a[k].hash.insert(id));
        }
    }
    assert forall|k: int| a.len() <= k < c.len() implies (#[trigger] c[k]).exact.subset_of(
        Set::empty().insert(id),
    ) by {
        if k < b.len() {
            assert(b[k].exact.subset_of(Set::empty().insert(id)));
        }
    }
    assert forall|k: int| a.len() <= k < c.len() implies (#[trigger] c[k]).hash.subset_of(
        Set::empty().insert(id),
    ) by {
        if k < b.len() {
            assert(b[k].hash.subset_of(Set::empty().insert(id)));
        }
    }
}

/// Registering a subscription only extends the trie with that identifier.
proof fn lemma_subscribe_extends(
    nodes: Seq<TopicNodeView>,
    idx: int,
    f: Seq<Seq<u8>>,
    fi: int,
    id: Seq<u8>,
)
    requires
        wf_nodes(nodes),
        0 <= idx < nodes.len(),
        0 <= fi <= f.len(),
    ensures
        extends_with(nodes, spec_subscribe(nodes, idx, f, fi, id), id),
    decreases f.len() - fi,
{
    let node = nodes[idx];
    let r = spec_subscribe(nodes, idx, f, fi, id);
    if fi == f.len() {
    } else if f[fi] == seq![0x23u8] {
    } else {
        match find_child(nodes, node.children, f[fi], 0) {
            Some(c) => {
                lemma_find_child_gives_member(nodes, node.children, f[fi], 0);
                assert(exists|j: int| 0 <= j < node.children.len() && node.children[j] == c) by {
                    lemma_find_child_gives_member(nodes, node.children, f[fi], 0);
                }
                assert(idx < c < nodes.len());
                lemma_subscribe_extends(nodes, c, f, fi + 1, id);
            },
            None => {
                let n0 = nodes.len() as int;
                let fresh = TopicNodeView {
                    label: f[fi],
                    children: Seq::empty(),
                    exact: Set::empty(),
                    hash: Set::empty(),
                };
                let newparent = TopicNodeView {
                    label: node.label,
                    children: node.children.push(n0),
                    exact: node.exact,
                    hash: node.hash,
                };
                let ext = nodes.push(fresh).update(idx, newparent);
                assert(wf_nodes(ext));
                assert(extends_with(nodes, ext, id));
                lemma_subscribe_extends(ext, n0, f, fi + 1, id);
                assert forall|k: int| 0 <= k < ext.len() implies children_extended(
                    ext[k].children,
                    (#[trigger] spec_subscribe(ext, n0, f, fi + 1, id)[k]).children,
                    ext.len() as int,
                ) by {
                    assert(extends_with(ext, spec_subscribe(ext, n0, f, fi + 1, id), id));
                }
                lemma_extends_trans(nodes, ext, spec_subscribe(ext, n0, f, fi + 1, id), id);
            },
        }
    }
}

/// Inside the extension zone every match result holds at most `id`.
proof fn lemma_zone_match_only_id(
    b: Seq<TopicNodeView>,
    lo: int,
    m: int,
    t: Seq<Seq<u8>>,
    ti: int,
    root: bool,
    id: Seq<u8>,
)
    requires
        wf_nodes(b),
        0 <= lo <= m < b.len(),
        forall|k: int| lo <= k < b.len() ==> (#[trigger] b[k]).exact.subset_of(
            Set::empty().insert(id),
        ),
        forall|k: int| lo <= k < b.len() ==> (#[trigger] b[k]).hash.subset_of(
            Set::empty().insert(id),
        ),
    ensures
        forall|x: Seq<u8>| #[trigger] match_ids(b, m, t, ti, root).contains(x) ==> x == id,
    decreases t.len() - ti,
{
    assert(b[m].exact.subset_of(Set::empty().insert(id)));
    assert(b[m].hash.subset_of(Set::empty().insert(id)));
    if !(0 <= ti <= t.len()) {
    } else if ti == t.len() {
        assert forall|x: Seq<u8>| #[trigger] match_ids(b, m, t, ti, root).contains(x) implies x
            == id by {
            assert(b[m].exact.contains(x) || b[m].hash.contains(x));
            assert(Set::empty().insert(id).contains(x));
        }
    } else {
        let node = b[m];
        let lit = match find_child(b, node.children, t[ti], 0) {
            Some(c) => match_ids(b, c, t, ti + 1, false),
            None => Set::<Seq<u8>>::empty(),
        };
        let plus_taken = !(root && starts_dollar(t[ti]));
        let plus = if plus_taken {
            match find_child(b, node.children, seq![0x2Bu8], 0) {
                Some(c) => match_ids(b, c, t, ti + 1, false),
                None => Set::<Seq<u8>>::empty(),
            }
        } else {
            Set::<Seq<u8>>::empty()
        };
        match find_child(b, node.children, t[ti], 0) {
            Some(c) => {
                assert(exists|j: int| 0 <= j < node.children.len() && node.children[j] == c) by {
                    lemma_find_child_gives_member(b, node.children, t[ti], 0);
                }
                assert(m < c < b.len());
                lemma_zone_match_only_id(b, lo, c, t, ti + 1, false, id);
            },
            None => {},
        }
        match find_child(b, node.children, seq![0x2Bu8], 0) {
            Some(c) => {
                assert(exists|j: int| 0 <= j < node.children.len() && node.children[j] == c) by {
                    lemma_find_child_gives_member(b, node.children, seq![0x2Bu8], 0);
                }
                assert(m < c < b.len());
                lemma_zone_match_only_id(b, lo, c, t, ti + 1, false, id);
            },
            None => {},
        }
        assert forall|x: Seq<u8>| #[trigger] match_ids(b, m, t, ti, root).contains(x) implies x
            == id by {
            if node.hash.contains(x) {
                assert(Set::empty().insert(id).contains(x));
            } else if lit.contains(x) {
            } else {
                assert(plus.contains(x));
            }
        }
    }
}

/// A child search in the extended arena finds the same old child, or only/// A child search in the extended arena finds the same old child, or only
/// a child of the new zone where the old search found nothing.
proof fn lemma_find_child_extends(
    a: Seq<TopicNodeView>,
    b: Seq<TopicNodeView>,
    ac: Seq<int>,
    bc: Seq<int>,
    label: Seq<u8>,
    k: int,
    id: Seq<u8>,
)
    requires
        extends_with(a, b, id),
        children_extended(ac, bc, a.len() as int),
        forall|j: int| 0 <= j < ac.len() ==> 0 <= #[trigger] ac[j] < a.len(),
        0 <= k <= bc.len(),
    ensures
        (match find_child(a, ac, label, k) {
            Some(c) => find_child(b, bc, label, k) == Some(c),
            None => find_child(b, bc, label, k) is None || find_child(b, bc, label, k)->0
                >= a.len(),
        }),
    decreases bc.len() - k,
{
    if k < ac.len() {
        let c = ac[k];
        assert(bc[k] == c);
        assert(b[c].label == a[c].label);
        if 0 <= c < a.len() && a[c].label == label {
        } else {
            lemma_find_child_extends(a, b, ac, bc, label, k + 1, id);
        }
    } else if k < bc.len() {
        assert(find_child(a, ac, label, k) is None);
        if 0 <= bc[k] < b.len() && b[bc[k]].label == label {
            assert(bc[k] >= a.len());
        } else {
            lemma_find_child_extends(a, b, ac, bc, label, k + 1, id);
        }
    }
}

/// In an extended arena, membership of any identifier other than the
/// registered one is unchanged in every match set.
proof fn lemma_extends_match(
    a: Seq<TopicNodeView>,
    b: Seq<TopicNodeView>,
    id: Seq<u8>,
    m: int,
    t: Seq<Seq<u8>>,
    ti: int,
    root: bool,
    other: Seq<u8>,
)
    requires
        wf_nodes(a),
        wf_nodes(b),
        extends_with(a, b, id),
        other != id,
        0 <= m < a.len(),
    ensures
        match_ids(b, m, t, ti, root).contains(other) == match_ids(a, m, t, ti, root).contains(
            other,
        ),
    decreases t.len() - ti,
{
    if !(0 <= ti <= t.len()) {
    } else {
        let na = a[m];
        let nb = b[m];
        assert(nb.label == na.label);
        assert(children_extended(na.children, nb.children, a.len() as int));
        assert(nb.exact == na.exact || nb.exact == na.exact.insert(id));
        assert(nb.hash == na.hash || nb.hash == na.hash.insert(id));
        assert(nb.hash.contains(other) == na.hash.contains(other));
        assert(nb.exact.contains(other) == na.exact.contains(other));
        if ti < t.len() {
            assert forall|j: int| 0 <= j < na.children.len() implies 0 <= #[trigger]
                na.children[j] < a.len() by {
                assert(m < na.children[j] < a.len());
            }
            lemma_find_child_extends(a, b, na.children, nb.children, t[ti], 0, id);
            match find_child(a, na.children, t[ti], 0) {
                Some(c) => {
                    lemma_find_child_gives_member(a, na.children, t[ti], 0);
                    assert(exists|j: int| 0 <= j < na.children.len() && na.children[j] == c) by {
                        lemma_find_child_gives_member(a, na.children, t[ti], 0);
                    }
                    assert(m < c < a.len());
                    lemma_extends_match(a, b, id, c, t, ti + 1, false, other);
                },
                None => {
                    match find_child(b, nb.children, t[ti], 0) {
                        Some(x) => {
                            assert(x >= a.len());
                            lemma_find_child_gives_member(b, nb.children, t[ti], 0);
                            lemma_zone_match_only_id(
                                b,
                                a.len() as int,
                                x,
                                t,
                                ti + 1,
                                false,
                                id,
                            );
                            assert(!match_ids(b, x, t, ti + 1, false).contains(other));
                        },
                        None => {},
                    }
                },
            }
            lemma_find_child_extends(a, b, na.children, nb.children, seq![0x2Bu8], 0, id);
            match find_child(a, na.children, seq![0x2Bu8], 0) {
                Some(c) => {
                    lemma_find_child_gives_member(a, na.children, seq![0x2Bu8], 0);
                    assert(exists|j: int| 0 <= j < na.children.len() && na.children[j] == c) by {
                        lemma_find_child_gives_member(a, na.children, seq![0x2Bu8], 0);
                    }
                    assert(m < c < a.len());
                    lemma_extends_match(a, b, id, c, t, ti + 1, false, other);
                },
                None => {
                    match find_child(b, nb.children, seq![0x2Bu8], 0) {
                        Some(x) => {
                            assert(x >= a.len());
                            lemma_find_child_gives_member(b, nb.children, seq![0x2Bu8], 0);
                            lemma_zone_match_only_id(
                                b,
                                a.len() as int,
                                x,
                                t,
                                ti + 1,
                                false,
                                id,
                            );
                            assert(!match_ids(b, x, t, ti + 1, false).contains(other));
                        },
                        None => {},
                    }
                },
            }
        }
    }
}

/// Law: registering a subscription for one identifier never changes
/// whether any other identifier matches any topic.
pub proof fn lemma_subscribe_no_interference(
    nodes: Seq<TopicNodeView>,
    f: Seq<Seq<u8>>,
    t: Seq<Seq<u8>>,
    id: Seq<u8>,
    other: Seq<u8>,
)
    requires
        wf_nodes(nodes),
        other != id,
    ensures
        match_ids(spec_subscribe(nodes, 0, f, 0, id), 0, t, 0, true).contains(other) == match_ids(
            nodes,
            0,
            t,
            0,
            true,
        ).contains(other),
{
    lemma_subscribe_extends(nodes, 0, f, 0, id);
    lemma_subscribe_preserves(nodes, 0, f, 0, id);
    lemma_extends_match(nodes, spec_subscribe(nodes, 0, f, 0, id), id, 0, t, 0, true, other);
}

/// Law: for every topic name T and subscription (filter F, id S) such
/// that T matches F, looking T up after subscribing yields S.
pub proof fn lemma_subscribe_match(
    nodes: Seq<TopicNodeView>,
    f: Seq<Seq<u8>>,
    t: Seq<Seq<u8>>,
    id: Seq<u8>,
)
    requires
        wf_nodes(nodes),
        filter_matches(f, t),
    ensures
        match_ids(spec_subscribe(nodes, 0, f, 0, id), 0, t, 0, true).contains(id),
{
    lemma_subscribe_then_match(nodes, 0, f, 0, t, 0, true, id);
}

/// The trie after removing `id` from the filter's terminal node (its
/// multi-level set for a `#` filter); nodes are never pruned. A path that
/// does not exist leaves the trie unchanged.
pub open spec fn spec_unsubscribe(
    nodes: Seq<TopicNodeView>,
    idx: int,
    f: Seq<Seq<u8>>,
    fi: int,
    id: Seq<u8>,
) -> Seq<TopicNodeView>
    decreases f.len() - fi,
{
    if !(0 <= idx < nodes.len() && 0 <= fi <= f.len()) {
        nodes
    } else {
        let node = nodes[idx];
        if fi == f.len() {
            nodes.update(
                idx,
                TopicNodeView {
                    label: node.label,
                    children: node.children,
                    exact: node.exact.remove(id),
                    hash: node.hash,
                },
            )
        } else if f[fi] == seq![0x23u8] {
            nodes.update(
                idx,
                TopicNodeView {
                    label: node.label,
                    children: node.children,
                    exact: node.exact,
                    hash: node.hash.remove(id),
                },
            )
        } else {
            match find_child(nodes, node.children, f[fi], 0) {
                Some(c) => spec_unsubscribe(nodes, c, f, fi + 1, id),
                None => nodes,
            }
        }
    }
}

/// Removes every occurrence of `id` from an identifier list.
fn remove_id(ids: &mut Vec<Vec<u8>>, id: &Vec<u8>)
    ensures
        ids_set(final(ids)@) == ids_set(old(ids)@).remove(id@),
        ids_nodup(old(ids)@) ==> ids_nodup(final(ids)@),
{
    let ghost oldv = ids@;
    let mut out: Vec<Vec<u8>> = Vec::new();
    let mut k: usize = 0;
    while k < ids.len()
        invariant
            k <= ids@.len(),
            ids@ == oldv,
            ids_set(out@) == ids_set(oldv.take(k as int)).remove(id@),
            ids_nodup(oldv) ==> ids_nodup(out@),
            ids_nodup(oldv) ==> forall|w: int| 0 <= w < out@.len() ==> (exists|x: int|
                0 <= x < k && oldv[x]@ == #[trigger] out@[w]@),
        decreases ids@.len() - k,
    {
        let ghost out0 = out@;
        if !bytes_eq(&ids[k], id) {
            let item = copy_range(&ids[k], 0, ids[k].len());
            proof {
                assert(item@ =~= oldv[k as int]@);
            }
            out.push(item);
        }
        proof {
            assert forall|b: Seq<u8>| #[trigger] ids_set(out@).contains(b) implies ids_set(
                oldv.take(k + 1),
            ).remove(id@).contains(b) by {
                let w = choose|w: int| 0 <= w < out@.len() && #[trigger] out@[w]@ == b;
                if w < out0.len() {
                    assert(ids_set(out0).contains(b));
                    let x = choose|x: int|
                        0 <= x < oldv.take(k as int).len() && #[trigger] oldv.take(k as int)[x]@
                            == b;
                    assert(oldv.take(k + 1)[x]@ == b);
                } else {
                    assert(b == oldv[k as int]@);
                    assert(oldv.take(k + 1)[k as int]@ == b);
                }
            }
            assert forall|b: Seq<u8>| ids_set(oldv.take(k + 1)).remove(id@).contains(b) implies
                #[trigger] ids_set(out@).contains(b) by {
                let x = choose|x: int|
                    0 <= x < oldv.take(k + 1).len() && #[trigger] oldv.take(k + 1)[x]@ == b;
                if x < k {
                    assert(oldv.take(k as int)[x]@ == b);
                    assert(ids_set(out0).contains(b));
                    let w = choose|w: int| 0 <= w < out0.len() && #[trigger] out0[w]@ == b;
                    assert(out@[w]@ == b);
                } else {
                    assert(b == oldv[k as int]@);
                    assert(b != id@);
                    assert(out@[out0.len() as int]@ == b);
                }
            }
            assert(ids_set(out@) =~= ids_set(oldv.take(k + 1)).remove(id@));
            if ids_nodup(oldv) {
                assert forall|w: int| 0 <= w < out@.len() implies (exists|x: int|
                    0 <= x < k + 1 && oldv[x]@ == #[trigger] out@[w]@) by {
                    if w < out0.len() {
                        let x = choose|x: int| 0 <= x < k && oldv[x]@ == #[trigger] out0[w]@;
                        assert(oldv[x]@ == out@[w]@);
                    } else {
                        assert(oldv[k as int]@ == out@[w]@);
                    }
                }
                assert forall|w1: int, w2: int| 0 <= w1 < w2 < out@.len() implies out@[w1]@
                    != out@[w2]@ by {
                    if w2 < out0.len() {
                    } else if w1 < out0.len() {
                        let x = choose|x: int| 0 <= x < k && oldv[x]@ == #[trigger] out0[w1]@;
                        assert(out@[w2]@ == oldv[k as int]@);
                        assert(oldv[x]@ != oldv[k as int]@);
                    }
                }
            }
        }
        k = k + 1;
    }
    proof {
        assert(oldv.take(oldv.len() as int) =~= oldv);
    }
    *ids = out;
}

/// Whether an identifier list holds `id`.
pub fn contains_id(ids: &Vec<Vec<u8>>, id: &Vec<u8>) -> (r: bool)
    ensures
        r == ids_set(ids@).contains(id@),
{
    let mut i: usize = 0;
    while i < ids.len()
        invariant
            i <= ids@.len(),
            forall|j: int| 0 <= j < i ==> ids@[j]@ != id@,
        decreases ids@.len() - i,
    {
        if bytes_eq(&ids[i], id) {
            proof {
                assert(ids@[i as int]@ == id@);
            }
            return true;
        }
        i = i + 1;
    }
    false
}

/// Whether a filter matches a topic, both given as segment lists.
pub fn seg_match_exec(
    f: &Vec<Vec<u8>>,
    fi: usize,
    t: &Vec<Vec<u8>>,
    ti: usize,
    root: bool,
) -> (r: bool)
    requires
        fi <= f@.len(),
        ti <= t@.len(),
    ensures
        r == seg_match(segs_view(f@), fi as int, segs_view(t@), ti as int, root),
    decreases f@.len() - fi,
{
    let ghost fv = segs_view(f@);
    let ghost tv = segs_view(t@);
    if fi == f.len() {
        return ti == t.len();
    }
    let seg = &f[fi];
    proof {
        assert(fv[fi as int] == f@[fi as int]@);
        if fv[fi as int] == seq![0x23u8] {
            assert(seg@.len() == 1 && seg@[0] == 0x23);
        }
        if fv[fi as int] == seq![0x2Bu8] {
            assert(seg@.len() == 1 && seg@[0] == 0x2B);
        }
    }
    if seg.len() == 1 && seg[0] == 0x23 {
        proof {
            assert(fv[fi as int] =~= seq![0x23u8]);
        }
        let dollar: bool = ti < t.len() && t[ti].len() > 0 && t[ti][0] == 0x24;
        proof {
            assert(dollar == ((ti as int) < tv.len() && starts_dollar(tv[ti as int])));
        }
        return fi + 1 == f.len() && !(root && dollar);
    }
    if ti == t.len() {
        return false;
    }
    let dollar: bool = t[ti].len() > 0 && t[ti][0] == 0x24;
    proof {
        assert(dollar == starts_dollar(tv[ti as int]));
    }
    if seg.len() == 1 && seg[0] == 0x2B {
        proof {
            assert(fv[fi as int] =~= seq![0x2Bu8]);
        }
        if root && dollar {
            return false;
        }
        return seg_match_exec(f, fi + 1, t, ti + 1, false);
    }
    proof {
        assert(fv[fi as int] != seq![0x23u8] && fv[fi as int] != seq![0x2Bu8]);
        assert(tv[ti as int] == t@[ti as int]@);
    }
    if !bytes_eq(seg, &t[ti]) {
        return false;
    }
    seg_match_exec(f, fi + 1, t, ti + 1, false)
}

impl TopicTree {
    /// Removes `topic_subscriber_id` from the filter's terminal node, or
    /// from the anchored multi-level set for a `#` filter. Nodes are never
    /// pruned.
    pub fn unsubscribe(&mut self, topic_str: &Vec<u8>, topic_subscriber_id: &Vec<u8>)
        requires
            wf_nodes(old(self)@),
        ensures
            wf_nodes(final(self)@),
            final(self)@ == spec_unsubscribe(
                old(self)@,
                0,
                spec_split(topic_str@),
                0,
                topic_subscriber_id@,
            ),
    {
        let segs = split_segments(topic_str);
        self.unsubscribe_at(0, &segs, 0, topic_subscriber_id);
    }

    fn unsubscribe_at(&mut self, cur: usize, segs: &Vec<Vec<u8>>, i: usize, id: &Vec<u8>)
        requires
            wf_nodes(old(self)@),
            cur < old(self)@.len(),
            i <= segs@.len(),
        ensures
            wf_nodes(final(self)@),
            final(self)@ == spec_unsubscribe(old(self)@, cur as int, segs_view(segs@), i as int, id@),
        decreases segs@.len() - i,
    {
        let ghost nodes0 = self@;
        let ghost fv = segs_view(segs@);
        if i == segs.len() {
            remove_id(&mut self.nodes[cur].topic_subscribers_id, id);
            proof {
                assert(self@ =~~= spec_unsubscribe(nodes0, cur as int, fv, i as int, id@));
            }
            return ;
        }
        let seg = &segs[i];
        if seg.len() == 1 && seg[0] == 0x23 {
            proof {
                assert(fv[i as int] =~= seq![0x23u8]);
            }
            remove_id(&mut self.nodes[cur].multi_level_topic_subscribers_id, id);
            proof {
                assert(self@ =~~= spec_unsubscribe(nodes0, cur as int, fv, i as int, id@));
            }
            return ;
        }
        proof {
            assert(fv[i as int] == segs@[i as int]@);
            if fv[i as int] == seq![0x23u8] {
                assert(segs@[i as int]@.len() == 1 && segs@[i as int]@[0] == 0x23);
                assert(false);
            }
        }
        match find_child_exec(self, cur, seg) {
            Some(c) => {
                self.unsubscribe_at(c, segs, i + 1, id);
            },
            None => {},
        }
    }
}

} // verus!
