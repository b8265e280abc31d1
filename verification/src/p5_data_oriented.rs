//! Entities, components and systems.
//!
//! State lives in parallel tables keyed by an entity handle; behaviour lives in
//! functions that sweep those tables. Every entity has the base state (name,
//! origin, colour) and exactly one shape component: a circle or a rectangle.
//! A square is no type of its own: it is a rectangle whose two sides are equal.
//!
//! The tables are generic in the point type `P` and the length type `L`, so the
//! bookkeeping here is independent of how coordinates and lengths are stored.

use vstd::prelude::*;

use crate::common::Color;

verus! {

/// Handle of an entity: its position in the base-state table.
#[derive(Debug, Clone, Copy, PartialEq, Eq, Hash, Structural)]
pub struct Entity(usize);

impl Entity {
    /// The position of the entity in the base-state table.
    pub closed spec fn id(self) -> int {
        self.0 as int
    }

    /// The position of the entity in the base-state table.
    pub fn index(&self) -> (r: usize)
        ensures
            r == self.id(),
    {
        self.0
    }
}

/// The shape component that one entity carries.
pub enum Component<L> {
    Circle { radius: L },
    Rect { width: L, height: L },
}

/// What the world holds for one entity.
pub struct EntityView<P, L> {
    pub name: Seq<char>,
    pub origin: P,
    pub color: Color,
    pub component: Component<L>,
}

/// Struct-of-arrays: the base state of every entity, one array per field.
pub struct Transforms<P> {
    names: Vec<String>,
    origins: Vec<P>,
    colors: Vec<Color>,
}

/// The circle components, and the entities that own them.
pub struct CircleShape<L> {
    owners: Vec<Entity>,
    radii: Vec<L>,
}

/// The rectangle components (width, height), and the entities that own them.
pub struct RectShape<L> {
    owners: Vec<Entity>,
    sizes: Vec<(L, L)>,
}

/// All entities: the base-state table and one table per shape component.
pub struct World<P, L> {
    transforms: Transforms<P>,
    circles: CircleShape<L>,
    rects: RectShape<L>,
    /// For each entity: whether its component is a circle, and its row in that table.
    slots: Ghost<Seq<(bool, int)>>,
}

/// Owners listed in strictly increasing order of their ids.
spec fn strictly_increasing(owners: Seq<Entity>) -> bool {
    forall|i: int, j: int| 0 <= i < j < owners.len() ==> owners[i].id() < owners[j].id()
}

impl<P, L> World<P, L> {
    spec fn component_at(self, k: int) -> Component<L> {
        let s = self.slots@[k];
        if s.0 {
            Component::Circle { radius: self.circles.radii@[s.1] }
        } else {
            Component::Rect { width: self.rects.sizes@[s.1].0, height: self.rects.sizes@[s.1].1 }
        }
    }

    #[verifier::type_invariant]
    spec fn well_formed(self) -> bool {
        let n = self.transforms.names@.len();
        let cs = self.circles.owners@;
        let rs = self.rects.owners@;
        &&& self.transforms.origins@.len() == n
        &&& self.transforms.colors@.len() == n
        &&& self.circles.radii@.len() == cs.len()
        &&& self.rects.sizes@.len() == rs.len()
        &&& cs.len() + rs.len() == n
        &&& self.slots@.len() == n
        &&& strictly_increasing(cs)
        &&& strictly_increasing(rs)
        &&& forall|k: int|
            0 <= k < n ==> {
                let s = #[trigger] self.slots@[k];
                if s.0 {
                    0 <= s.1 < cs.len() && cs[s.1].id() == k
                } else {
                    0 <= s.1 < rs.len() && rs[s.1].id() == k
                }
            }
        &&& forall|i: int|
            0 <= i < cs.len() ==> {
                let k = #[trigger] cs[i].id();
                0 <= k < n && self.slots@[k] == (true, i)
            }
        &&& forall|j: int|
            0 <= j < rs.len() ==> {
                let k = #[trigger] rs[j].id();
                0 <= k < n && self.slots@[k] == (false, j)
            }
    }
}

impl<P, L> View for World<P, L> {
    type V = Seq<EntityView<P, L>>;

    closed spec fn view(&self) -> Seq<EntityView<P, L>> {
        Seq::new(
            self.transforms.names@.len(),
            |k: int|
                EntityView {
                    name: self.transforms.names@[k]@,
                    origin: self.transforms.origins@[k],
                    color: self.transforms.colors@[k],
                    component: self.component_at(k),
                },
        )
    }
}

impl<P, L> World<P, L> {
    fn empty() -> (w: Self)
        ensures
            w@ == Seq::<EntityView<P, L>>::empty(),
    {
        let w = World {
            transforms: Transforms { names: Vec::new(), origins: Vec::new(), colors: Vec::new() },
            circles: CircleShape { owners: Vec::new(), radii: Vec::new() },
            rects: RectShape { owners: Vec::new(), sizes: Vec::new() },
            slots: Ghost(Seq::empty()),
        };
        assert(w@ =~= Seq::<EntityView<P, L>>::empty());
        w
    }

    /// Appends an entity with the given base state and component.
    fn spawn(&mut self, name: &str, origin: P, color: Color, component: Component<L>) -> (e: Entity)
        ensures
            e.id() == old(self)@.len(),
            final(self)@ == old(self)@.push(
                EntityView { name: name@, origin, color, component },
            ),
    {
        proof { use_type_invariant(&*self); }
        let mut w = World::empty();
        std::mem::swap(&mut w, self);
        let ghost old_w = w;
        let e = Entity(w.transforms.names.len());
        let World { mut transforms, mut circles, mut rects, slots } = w;
        transforms.names.push(name.to_owned());
        transforms.origins.push(origin);
        transforms.colors.push(color);
        let ghost slot: (bool, int);
        match component {
            Component::Circle { radius } => {
                proof { slot = (true, circles.owners@.len() as int); }
                circles.owners.push(e);
                circles.radii.push(radius);
            },
            Component::Rect { width, height } => {
                proof { slot = (false, rects.owners@.len() as int); }
                rects.owners.push(e);
                rects.sizes.push((width, height));
            },
        }
        *self = World { transforms, circles, rects, slots: Ghost(slots@.push(slot)) };
        e
    }
}


/// The radius that the world holds for `e`: `Some` exactly when `e` names an
/// entity whose component is a circle.
pub open spec fn radius_in<P, L>(v: Seq<EntityView<P, L>>, e: Entity) -> Option<L> {
    if 0 <= e.id() < v.len() {
        match v[e.id()].component {
            Component::Circle { radius } => Some(radius),
            Component::Rect { .. } => None,
        }
    } else {
        None
    }
}

/// `a` is a value that the area function for `c`'s kind may return for `c`.
pub open spec fn area_matches<L, A, FC: Fn(&L) -> A, FR: Fn(&L, &L) -> A>(
    c: Component<L>,
    circle_area: FC,
    rect_area: FR,
    a: A,
) -> bool {
    match c {
        Component::Circle { radius } => circle_area.ensures((&radius,), a),
        Component::Rect { width, height } => rect_area.ensures((&width, &height), a),
    }
}

impl<P, L> World<P, L> {
    /// Spawns a circle; its handle is the number of entities before the call.
    pub fn spawn_circle(&mut self, origin: P, color: Color, radius: L) -> (e: Entity)
        ensures
            e.id() == old(self)@.len(),
            final(self)@ == old(self)@.push(
                EntityView { name: "Circle"@, origin, color, component: Component::Circle { radius } },
            ),
    {
        self.spawn("Circle", origin, color, Component::Circle { radius })
    }

    /// Spawns a rectangle of width `w` and height `h`.
    pub fn spawn_rectangle(&mut self, origin: P, color: Color, w: L, h: L) -> (e: Entity)
        ensures
            e.id() == old(self)@.len(),
            final(self)@ == old(self)@.push(
                EntityView {
                    name: "Rectangle"@,
                    origin,
                    color,
                    component: Component::Rect { width: w, height: h },
                },
            ),
    {
        self.spawn("Rectangle", origin, color, Component::Rect { width: w, height: h })
    }

    /// Spawns a square: a rectangle component whose width and height are both `side`.
    pub fn spawn_square(&mut self, origin: P, color: Color, side: L) -> (e: Entity)
        where L: Copy
        ensures
            e.id() == old(self)@.len(),
            final(self)@ == old(self)@.push(
                EntityView {
                    name: "Square"@,
                    origin,
                    color,
                    component: Component::Rect { width: side, height: side },
                },
            ),
    {
        self.spawn("Square", origin, color, Component::Rect { width: side, height: side })
    }

    /// The number of entities.
    pub fn len(&self) -> (n: usize)
        ensures
            n == self@.len(),
    {
        self.transforms.names.len()
    }

    /// The name of entity `e`.
    pub fn name(&self, e: Entity) -> (r: &String)
        requires
            e.id() < self@.len(),
        ensures
            r@ == self@[e.id()].name,
    {
        &self.transforms.names[e.0]
    }

    /// The origin of entity `e`.
    pub fn origin(&self, e: Entity) -> (r: &P)
        requires
            e.id() < self@.len(),
        ensures
            *r == self@[e.id()].origin,
    {
        proof { use_type_invariant(self); }
        &self.transforms.origins[e.0]
    }

    /// The colour of entity `e`.
    pub fn color(&self, e: Entity) -> (r: Color)
        requires
            e.id() < self@.len(),
        ensures
            r == self@[e.id()].color,
    {
        proof { use_type_invariant(self); }
        self.transforms.colors[e.0]
    }

    /// Looks `e` up in the circle table: its radius when it owns a circle
    /// component, `None` otherwise.
    pub fn radius_of(&self, e: Entity) -> (r: Option<L>)
        where L: Copy
        ensures
            r == radius_in(self@, e),
            r is Some <==> (0 <= e.id() < self@.len() && self@[e.id()].component is Circle),
            r matches Some(x) ==> self@[e.id()].component == (Component::Circle { radius: x }),
    {
        proof { use_type_invariant(self); }
        let mut i: usize = 0;
        while i < self.circles.owners.len()
            invariant
                self.well_formed(),
                i <= self.circles.owners@.len(),
                forall|j: int| 0 <= j < i ==> self.circles.owners@[j] != e,
            decreases self.circles.owners@.len() - i,
        {
            if self.circles.owners[i] == e {
                return Some(self.circles.radii[i]);
            }
            i += 1;
        }
        proof {
            if 0 <= e.id() < self@.len() {
                let s = self.slots@[e.id()];
                if s.0 {
                    assert(self.circles.owners@[s.1] == e);
                }
            }
        }
        None
    }
    /// Area system: one result per entity, in increasing order of handles. The
    /// circle table is swept with `circle_area`, the rectangle table with
    /// `rect_area`, and the two sweeps are merged by handle.
    pub fn areas<A, FC: Fn(&L) -> A, FR: Fn(&L, &L) -> A>(
        &self,
        circle_area: FC,
        rect_area: FR,
    ) -> (out: Vec<(Entity, A)>)
        requires
            forall|r: L| circle_area.requires((&r,)),
            forall|w: L, h: L| rect_area.requires((&w, &h)),
        ensures
            out@.len() == self@.len(),
            forall|k: int|
                0 <= k < out@.len() ==> {
                    &&& (#[trigger] out@[k]).0.id() == k
                    &&& area_matches(self@[k].component, circle_area, rect_area, out@[k].1)
                },
            forall|k: int|
                0 <= k < out@.len() ==> match #[trigger] self@[k].component {
                    Component::Circle { radius } => circle_area.ensures((&radius,), out@[k].1),
                    Component::Rect { width, height } => rect_area.ensures(
                        (&width, &height),
                        out@[k].1,
                    ),
                },
    {
        proof { use_type_invariant(self); }
        let cn = self.circles.owners.len();
        let rn = self.rects.owners.len();
        let mut out: Vec<(Entity, A)> = Vec::new();
        let mut i: usize = 0;
        let mut j: usize = 0;
        while i < cn || j < rn
            invariant
                self.well_formed(),
                cn == self.circles.owners@.len(),
                rn == self.rects.owners@.len(),
                i <= cn,
                j <= rn,
                out@.len() == i + j,
                forall|r: L| circle_area.requires((&r,)),
                forall|w: L, h: L| rect_area.requires((&w, &h)),
                forall|a: int| 0 <= a < i ==> #[trigger] self.circles.owners@[a].id() < i + j,
                forall|b: int| 0 <= b < j ==> #[trigger] self.rects.owners@[b].id() < i + j,
                forall|m: int|
                    0 <= m < i + j ==> {
                        let s = #[trigger] self.slots@[m];
                        (s.0 && s.1 < i) || (!s.0 && s.1 < j)
                    },
                forall|k: int|
                    0 <= k < out@.len() ==> {
                        &&& (#[trigger] out@[k]).0.id() == k
                        &&& area_matches(self@[k].component, circle_area, rect_area, out@[k].1)
                    },
            decreases cn + rn - i - j,
        {
            let ghost k = (i + j) as int;
            proof {
                if i < cn {
                    let m = self.circles.owners@[i as int].id();
                    assert(self.slots@[m] == (true, i as int));
                }
                if j < rn {
                    let m = self.rects.owners@[j as int].id();
                    assert(self.slots@[m] == (false, j as int));
                }
            }
            if i < cn && self.circles.owners[i].0 == i + j {
                let a = circle_area(&self.circles.radii[i]);
                out.push((self.circles.owners[i], a));
                i += 1;
            } else {
                proof {
                    let s = self.slots@[k];
                    if s.0 {
                        assert(self.circles.owners@[s.1].id() == k);
                        if s.1 > i {
                            assert(self.circles.owners@[i as int].id() < self.circles.owners@[s.1].id());
                        }
                        assert(false);
                    } else {
                        assert(self.rects.owners@[s.1].id() == k);
                        if s.1 > j {
                            assert(self.rects.owners@[j as int].id() < self.rects.owners@[s.1].id());
                        }
                        assert(s.1 == j);
                    }
                }
                let a = rect_area(&self.rects.sizes[j].0, &self.rects.sizes[j].1);
                out.push((self.rects.owners[j], a));
                j += 1;
            }
        }
        out
    }
    /// Transform system: replaces the origin of every entity by `f` of it, in
    /// one pass over the base-state table; names, colours and components stay.
    pub fn translate_all<F: Fn(&P) -> P>(&mut self, f: F)
        requires
            forall|p: P| f.requires((&p,)),
        ensures
            final(self)@.len() == old(self)@.len(),
            forall|k: int|
                0 <= k < old(self)@.len() ==> {
                    &&& (#[trigger] final(self)@[k]).name == old(self)@[k].name
                    &&& final(self)@[k].color == old(self)@[k].color
                    &&& final(self)@[k].component == old(self)@[k].component
                    &&& f.ensures((&old(self)@[k].origin,), final(self)@[k].origin)
                },
    {
        proof { use_type_invariant(&*self); }
        let mut w = World::empty();
        std::mem::swap(&mut w, self);
        let ghost old_w = w;
        let World { mut transforms, circles, rects, slots } = w;
        let n = transforms.origins.len();
        let mut i: usize = 0;
        while i < n
            invariant
                n == transforms.origins@.len(),
                n == old_w.transforms.origins@.len(),
                i <= n,
                forall|p: P| f.requires((&p,)),
                forall|k: int| i <= k < n ==> transforms.origins@[k] == old_w.transforms.origins@[k],
                forall|k: int|
                    0 <= k < i ==> f.ensures(
                        (&old_w.transforms.origins@[k],),
                        #[trigger] transforms.origins@[k],
                    ),
                transforms.names == old_w.transforms.names,
                transforms.colors == old_w.transforms.colors,
            decreases n - i,
        {
            let p = f(&transforms.origins[i]);
            transforms.origins.set(i, p);
            i += 1;
        }
        *self = World { transforms, circles, rects, slots };
    }
}



impl<P, L> Default for World<P, L> {
    /// A world with no entities.
    fn default() -> (w: Self)
        ensures
            w@ == Seq::<EntityView<P, L>>::empty(),
    {
        Self::empty()
    }
}

/// Two handles are the same handle exactly when they name the same position.
pub proof fn lemma_id_determines_entity(e1: Entity, e2: Entity)
    ensures
        e1 == e2 <==> e1.id() == e2.id(),
{
}

/// Lookup after spawning: the entity that a spawn appended is found again with
/// the component it was spawned with (its radius for a circle, nothing for a
/// rectangle), and what every earlier entity answers is unchanged.
pub proof fn lemma_lookup_after_spawn<P, L>(
    v: Seq<EntityView<P, L>>,
    spawned: EntityView<P, L>,
    e: Entity,
)
    ensures
        e.id() == v.len() ==> radius_in(v.push(spawned), e) == match spawned.component {
            Component::Circle { radius } => Some(radius),
            Component::Rect { .. } => None::<L>,
        },
        e.id() != v.len() ==> radius_in(v.push(spawned), e) == radius_in(v, e),
{
}

/// The area of a circle entity is what `circle_area` gives for its radius, and
/// the area of a rectangle entity is what `rect_area` gives for its width and
/// its height, in that order.
pub proof fn lemma_area_matches_by_kind<L, A, FC: Fn(&L) -> A, FR: Fn(&L, &L) -> A>(
    r: L,
    w: L,
    h: L,
    circle_area: FC,
    rect_area: FR,
    a: A,
)
    ensures
        area_matches(Component::Circle { radius: r }, circle_area, rect_area, a)
            <==> circle_area.ensures((&r,), a),
        area_matches(Component::Rect { width: w, height: h }, circle_area, rect_area, a)
            <==> rect_area.ensures((&w, &h), a),
{
}

/// Spawning then sweeping: for a world whose view is `v`, once a rectangle of
/// width `w` and height `h` has been appended, the area reported for it by an
/// area sweep is a result of `rect_area` on `(w, h)`, in that order; once a
/// circle of radius `r` has been appended, it is a result of `circle_area` on `r`.
pub proof fn lemma_area_of_spawned<P, L, A, FC: Fn(&L) -> A, FR: Fn(&L, &L) -> A>(
    v: Seq<EntityView<P, L>>,
    name: Seq<char>,
    origin: P,
    color: Color,
    r: L,
    w: L,
    h: L,
    circle_area: FC,
    rect_area: FR,
    a: A,
)
    ensures
        area_matches(
            v.push(EntityView { name, origin, color, component: Component::Rect { width: w, height: h } })[v.len() as int].component,
            circle_area,
            rect_area,
            a,
        ) <==> rect_area.ensures((&w, &h), a),
        area_matches(
            v.push(EntityView { name, origin, color, component: Component::Circle { radius: r } })[v.len() as int].component,
            circle_area,
            rect_area,
            a,
        ) <==> circle_area.ensures((&r,), a),
{
}

} // verus!
