use vstd::prelude::*;

verus! {

/// One typed payload attached to an entity.
///
/// The store distinguishes components by `kind` (standing for the payload's
/// type) and keeps one `value` per kind on each entity: attaching a component
/// whose kind is already present overwrites that kind's value.
#[derive(Clone, Copy, PartialEq, Eq, Structural, Debug)]
pub struct Component {
    pub kind: u64,
    pub value: u64,
}

/// An ordered group of components, attached or spawned as one atomic unit.
#[derive(Debug)]
pub struct Bundle {
    pub components: Vec<Component>,
}

impl View for Bundle {
    type V = Seq<Component>;

    open spec fn view(&self) -> Seq<Component> {
        self.components@
    }
}

impl Bundle {
    pub fn new() -> (b: Bundle)
        ensures
            b@ == Seq::<Component>::empty(),
    {
        Bundle { components: Vec::new() }
    }

    pub fn push(&mut self, c: Component)
        ensures
            final(self)@ == old(self)@.push(c),
    {
        self.components.push(c);
    }

    pub fn from_components(components: Vec<Component>) -> (b: Bundle)
        ensures
            b@ == components@,
    {
        Bundle { components }
    }
}

/// The component set an ordered sequence of attachments leaves behind:
/// one value per kind, a later attachment of a kind overwriting an earlier one.
pub open spec fn comps_map(s: Seq<Component>) -> Map<u64, u64>
    decreases s.len(),
{
    if s.len() == 0 {
        Map::empty()
    } else {
        comps_map(s.drop_last()).insert(s.last().kind, s.last().value)
    }
}

/// Appending one attachment to a sequence inserts its kind and value into the
/// sequence's component set.
pub proof fn lemma_comps_map_push(s: Seq<Component>, c: Component)
    ensures
        comps_map(s.push(c)) == comps_map(s).insert(c.kind, c.value),
{
    assert(s.push(c).drop_last() =~= s);
}

/// Extending the attachments considered by one inserts that attachment's kind
/// and value into the component set of the prefix before it.
pub proof fn lemma_comps_map_take_step(s: Seq<Component>, j: int)
    requires
        0 <= j < s.len(),
    ensures
        comps_map(s.take(j + 1)) == comps_map(s.take(j)).insert(s[j].kind, s[j].value),
{
    assert(s.take(j + 1).drop_last() =~= s.take(j));
    assert(s.take(j + 1).last() == s[j]);
}

/// Attaching two components of distinct kinds leaves the entity carrying
/// both, and yields the same component set in either order.
pub proof fn lemma_attach_commutes(m: Map<u64, u64>, a: Component, b: Component)
    requires
        a.kind != b.kind,
    ensures
        m.insert(a.kind, a.value).insert(b.kind, b.value)[a.kind] == a.value,
        m.insert(a.kind, a.value).insert(b.kind, b.value)[b.kind] == b.value,
        m.insert(a.kind, a.value).insert(b.kind, b.value) == m.insert(b.kind, b.value).insert(
            a.kind,
            a.value,
        ),
{
    assert(m.insert(a.kind, a.value).insert(b.kind, b.value) =~= m.insert(b.kind, b.value).insert(
        a.kind,
        a.value,
    ));
}

} // verus!
