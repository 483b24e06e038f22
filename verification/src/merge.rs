//! What the member resolver's walk guarantees about properties and the
//! accessor methods that the compiler makes for them.

use vstd::prelude::*;
use crate::config::ClassDataView;
use crate::entity::{EntityKind, EntityView};
use crate::method::MethodView;
use crate::property::PropertyView;
use crate::resolve::{
    method_data,
    property_data,
    resolve,
    resolve_child,
    resolve_start,
    resolve_step,
    resolve_walk,
    walk,
    ResolverState,
};
use crate::stmt::MemberView;

verus! {

/// Whether `child` is a property one of whose accessors has the selector
/// `key`.
pub open spec fn is_accessor(child: EntityView, key: (bool, Seq<char>)) -> bool {
    &&& child.kind == EntityKind::ObjCPropertyDecl
    &&& child.name is Some
    &&& child.getter is Some
    &&& key.0 == child.is_class
    &&& (key.1 == child.getter->Some_0 || child.setter == Some(key.1))
}

/// Whether `child` is a method with the selector `key`.
pub open spec fn is_method_for(child: EntityView, key: (bool, Seq<char>)) -> bool {
    &&& (child.kind == EntityKind::ObjCInstanceMethodDecl || child.kind
        == EntityKind::ObjCClassMethodDecl)
    &&& child.name == Some(key.1)
    &&& key.0 == (child.kind == EntityKind::ObjCClassMethodDecl)
}

/// Whether no child from `from` up to `to` is a method with the selector
/// `key`.
pub open spec fn no_method_between(
    children: Seq<EntityView>,
    key: (bool, Seq<char>),
    from: int,
    to: int,
) -> bool {
    forall|j: int| from <= j < to ==> !is_method_for(#[trigger] children[j], key)
}

/// Whether the property at `p` has announced the accessor `key` and no
/// method among the children after it and before `n` has taken it up.
pub open spec fn pending_since(
    children: Seq<EntityView>,
    key: (bool, Seq<char>),
    p: int,
    n: int,
) -> bool {
    &&& 0 <= p < n
    &&& p < children.len()
    &&& is_accessor(children[p], key)
    &&& no_method_between(children, key, p + 1, n)
}

/// The accessors that the first `n` children have announced and not taken
/// up.
pub open spec fn unmatched(children: Seq<EntityView>, n: int) -> Set<(bool, Seq<char>)> {
    Set::new(|key: (bool, Seq<char>)| exists|p: int| pending_since(children, key, p, n))
}

/// Whether the method `method` was read from a child before `n` at a moment
/// when its selector was not pending.
pub open spec fn read_at(children: Seq<EntityView>, method: MethodView, j: int, n: int) -> bool {
    &&& 0 <= j < n
    &&& j < children.len()
    &&& is_method_for(children[j], (method.is_class, method.selector))
    &&& !unmatched(children, j).contains((method.is_class, method.selector))
}

/// The properties among `members`, in order.
pub open spec fn property_members(members: Seq<MemberView>) -> Seq<PropertyView>
    decreases members.len(),
{
    if members.len() == 0 {
        Seq::empty()
    } else {
        match members.last() {
            MemberView::Property(property) => property_members(members.drop_last()).push(property),
            MemberView::Method(_) => property_members(members.drop_last()),
        }
    }
}

/// The properties that the first `n` children declare and the override
/// does not skip, in order.
pub open spec fn declared_properties(
    children: Seq<EntityView>,
    data: Option<ClassDataView>,
    n: int,
) -> Seq<PropertyView>
    decreases n,
{
    if n <= 0 || n > children.len() {
        Seq::empty()
    } else {
        let child = children[n - 1];
        let before = declared_properties(children, data, n - 1);
        if child.kind == EntityKind::ObjCPropertyDecl && child.name is Some {
            match PropertyView::parse(child, property_data(data, child.name->Some_0)) {
                Ok(Some(property)) => before.push(property),
                _ => before,
            }
        } else {
            before
        }
    }
}

/// Whether the child at `i` adds a member: a property that the override
/// does not skip, or a method that is neither skipped nor variadic and
/// whose selector is not pending when it is met.
pub open spec fn adds_member(children: Seq<EntityView>, data: Option<ClassDataView>, i: int) -> bool {
    let child = children[i];
    if child.name is None {
        false
    } else if child.kind == EntityKind::ObjCPropertyDecl {
        !property_data(data, child.name->Some_0).skipped
    } else if child.kind == EntityKind::ObjCInstanceMethodDecl || child.kind
        == EntityKind::ObjCClassMethodDecl {
        &&& !unmatched(children, i).contains(
            (child.kind == EntityKind::ObjCClassMethodDecl, child.name->Some_0),
        )
        &&& !method_data(data, child.name->Some_0).skipped
        &&& !child.is_variadic
    } else {
        false
    }
}

/// How many of the first `n` children add a member.
pub open spec fn member_count(children: Seq<EntityView>, data: Option<ClassDataView>, n: int) -> nat
    decreases n,
{
    if n <= 0 || n > children.len() {
        0
    } else {
        member_count(children, data, n - 1) + (if adds_member(children, data, n - 1) {
            1nat
        } else {
            0nat
        })
    }
}

/// What holds of the state after the first `n` children.
pub open spec fn walked(
    children: Seq<EntityView>,
    data: Option<ClassDataView>,
    state: ResolverState,
    n: int,
) -> bool {
    &&& state.pending == unmatched(children, n)
    &&& state.members.len() == member_count(children, data, n)
    &&& property_members(state.members) == declared_properties(children, data, n)
    &&& forall|i: int|
        0 <= i < state.members.len() && (#[trigger] state.members[i]) is Method ==> exists|j: int|
            read_at(children, state.members[i]->Method_0, j, n)
}

proof fn lemma_unmatched_step(children: Seq<EntityView>, n: int)
    requires
        0 <= n < children.len(),
    ensures
        forall|key: (bool, Seq<char>)|
            unmatched(children, n + 1).contains(key) <==> (is_accessor(children[n], key) || (
            unmatched(children, n).contains(key) && !is_method_for(children[n], key))),
{
    let m = n + 1;
    assert forall|key: (bool, Seq<char>)|
        unmatched(children, m).contains(key) <==> (is_accessor(children[n], key) || (unmatched(
            children,
            n,
        ).contains(key) && !is_method_for(children[n], key))) by {
        if unmatched(children, m).contains(key) {
            let p = choose|p: int| pending_since(children, key, p, m);
            if p < n {
                assert(pending_since(children, key, p, n));
                assert(!is_method_for(children[n], key));
            }
        }
        if is_accessor(children[n], key) {
            assert(pending_since(children, key, n, m));
        }
        if unmatched(children, n).contains(key) && !is_method_for(children[n], key) {
            let p = choose|p: int| pending_since(children, key, p, n);
            assert(pending_since(children, key, p, m));
        }
    }
}

proof fn lemma_property_members_push(members: Seq<MemberView>, member: MemberView)
    ensures
        property_members(members.push(member)) == (match member {
            MemberView::Property(property) => property_members(members).push(property),
            MemberView::Method(_) => property_members(members),
        }),
{
    assert(members.push(member).drop_last() =~= members);
}

proof fn lemma_step_walked(
    children: Seq<EntityView>,
    want_superclass: bool,
    want_generics: bool,
    data: Option<ClassDataView>,
    state: ResolverState,
    n: int,
)
    requires
        0 <= n < children.len(),
        walked(children, data, state, n),
        resolve_child(state, children[n], want_superclass, want_generics, data) is Ok,
    ensures
        walked(
            children,
            data,
            resolve_child(state, children[n], want_superclass, want_generics, data)->Ok_0,
            n + 1,
        ),
{
    let m = n + 1;
    let child = children[n];
    let next = resolve_child(state, child, want_superclass, want_generics, data)->Ok_0;
    assert(member_count(children, data, m) == member_count(children, data, n) + (if adds_member(
        children,
        data,
        n,
    ) {
        1nat
    } else {
        0nat
    }));
    lemma_unmatched_step(children, n);
    // the members that were there keep their origin
    assert forall|i: int| 0 <= i < state.members.len() && (#[trigger] state.members[i]) is Method
        implies exists|j: int| read_at(children, state.members[i]->Method_0, j, m) by {
        let j = choose|j: int| read_at(children, state.members[i]->Method_0, j, n);
        assert(read_at(children, state.members[i]->Method_0, j, m));
    }
    if child.kind == EntityKind::ObjCInstanceMethodDecl || child.kind
        == EntityKind::ObjCClassMethodDecl {
        let selector = child.name->Some_0;
        let key = (child.kind == EntityKind::ObjCClassMethodDecl, selector);
        assert(is_method_for(child, key));
        assert forall|k: (bool, Seq<char>)| is_method_for(child, k) implies k == key by {}
        assert forall|k: (bool, Seq<char>)| !is_accessor(child, k) by {}
        if state.pending.contains(key) {
            assert(next.members == state.members);
            assert(next.pending =~= unmatched(children, m));
        } else {
            assert(next.pending == state.pending);
            assert(next.pending =~= unmatched(children, m));
            match MethodView::parse(child, method_data(data, selector)) {
                Ok(Some(method)) => {
                    assert(next.members == state.members.push(MemberView::Method(method)));
                    lemma_property_members_push(state.members, MemberView::Method(method));
                    assert(method.selector == selector);
                    assert(read_at(children, method, n, m));
                    assert forall|i: int|
                        0 <= i < next.members.len() && (#[trigger] next.members[i]) is Method
                        implies exists|j: int|
                        read_at(children, next.members[i]->Method_0, j, m) by {
                        if i < state.members.len() {
                            assert(next.members[i] == state.members[i]);
                            assert(state.members[i] is Method);
                        } else {
                            assert(next.members[i]->Method_0 == method);
                        }
                    }
                },
                _ => {
                    assert(next.members == state.members);
                },
            }
        }
    } else if child.kind == EntityKind::ObjCPropertyDecl {
        let name = child.name->Some_0;
        assert forall|k: (bool, Seq<char>)| !is_method_for(child, k) by {}
        assert(next.pending =~= unmatched(children, m));
        match PropertyView::parse(child, property_data(data, name)) {
            Ok(Some(property)) => {
                assert(next.members == state.members.push(MemberView::Property(property)));
                lemma_property_members_push(state.members, MemberView::Property(property));
                assert forall|i: int|
                    0 <= i < next.members.len() && (#[trigger] next.members[i]) is Method
                    implies exists|j: int|
                    read_at(children, next.members[i]->Method_0, j, m) by {
                    assert(i < state.members.len());
                    assert(next.members[i] == state.members[i]);
                    assert(state.members[i] is Method);
                }
            },
            _ => {
                assert(next.members == state.members);
            },
        }
    } else {
        assert forall|k: (bool, Seq<char>)| !is_method_for(child, k) by {}
        assert forall|k: (bool, Seq<char>)| !is_accessor(child, k) by {}
        assert(next.members == state.members);
        assert(next.pending == state.pending);
        assert(next.pending =~= unmatched(children, m));
    }
}

proof fn lemma_walk_walked(
    children: Seq<EntityView>,
    want_superclass: bool,
    want_generics: bool,
    data: Option<ClassDataView>,
    state: ResolverState,
    n: int,
)
    requires
        0 <= n <= children.len(),
        walked(children, data, state, n),
        walk(children, resolve_step(want_superclass, want_generics, data), state, n) is Ok,
    ensures
        walked(
            children,
            data,
            walk(children, resolve_step(want_superclass, want_generics, data), state, n)->Ok_0,
            children.len() as int,
        ),
    decreases children.len() - n,
{
    if n < children.len() {
        let step = resolve_step(want_superclass, want_generics, data);
        assert(step(state, children[n]) == resolve_child(
            state,
            children[n],
            want_superclass,
            want_generics,
            data,
        ));
        lemma_step_walked(children, want_superclass, want_generics, data, state, n);
        lemma_walk_walked(
            children,
            want_superclass,
            want_generics,
            data,
            step(state, children[n])->Ok_0,
            n + 1,
        );
    }
}

/// After a walk that met no inconsistency, the pending set holds exactly
/// the accessors that a property announced and no later method took up;
/// there is one member for each child that adds one; the properties among
/// the members are the declared properties, each once and in order; and
/// every method among the members was read from a method child whose
/// selector was not pending when it was met.
pub proof fn lemma_walk_outcome(
    children: Seq<EntityView>,
    want_superclass: bool,
    want_generics: bool,
    data: Option<ClassDataView>,
)
    requires
        resolve_walk(children, want_superclass, want_generics, data) is Ok,
    ensures
        walked(
            children,
            data,
            resolve_walk(children, want_superclass, want_generics, data)->Ok_0,
            children.len() as int,
        ),
{
    assert(unmatched(children, 0) =~= Set::empty());
    assert(resolve_start().members.len() == 0);
    lemma_walk_walked(children, want_superclass, want_generics, data, resolve_start(), 0);
}

/// Whether every accessor that a property announces is taken up by a
/// method that follows the property.
pub open spec fn every_accessor_matched(children: Seq<EntityView>) -> bool {
    forall|p: int, key: (bool, Seq<char>)|
        0 <= p < children.len() && #[trigger] is_accessor(children[p], key) ==> exists|j: int|
            p < j < children.len() && is_method_for(#[trigger] children[j], key)
}

/// Merge cancellation: where every accessor of every property has its
/// method further on among the children, and the walk meets no other
/// inconsistency, nothing is pending after the walk, the resolver succeeds
/// with the members that the walk found, the properties among them are the
/// declared properties, each exactly once, and there are as many members as
/// there are properties that are not skipped and methods that are neither
/// skipped nor variadic nor taken up as an accessor.
pub proof fn lemma_merge_cancellation(
    children: Seq<EntityView>,
    want_superclass: bool,
    want_generics: bool,
    data: Option<ClassDataView>,
)
    requires
        every_accessor_matched(children),
        resolve_walk(children, want_superclass, want_generics, data) is Ok,
    ensures
        resolve_walk(children, want_superclass, want_generics, data)->Ok_0.pending == Set::<
            (bool, Seq<char>),
        >::empty(),
        resolve(children, want_superclass, want_generics, data) is Ok,
        resolve(children, want_superclass, want_generics, data)->Ok_0.methods == resolve_walk(
            children,
            want_superclass,
            want_generics,
            data,
        )->Ok_0.members,
        property_members(resolve(children, want_superclass, want_generics, data)->Ok_0.methods)
            == declared_properties(children, data, children.len() as int),
        resolve(children, want_superclass, want_generics, data)->Ok_0.methods.len()
            == member_count(children, data, children.len() as int),
{
    lemma_walk_outcome(children, want_superclass, want_generics, data);
    let n = children.len() as int;
    assert forall|key: (bool, Seq<char>)| !unmatched(children, n).contains(key) by {
        if unmatched(children, n).contains(key) {
            let p = choose|p: int| pending_since(children, key, p, n);
            assert(is_accessor(children[p], key));
            let j = choose|j: int| p < j < children.len() && is_method_for(children[j], key);
            assert(no_method_between(children, key, p + 1, n));
            assert(!is_method_for(children[j], key));
        }
    }
    assert(unmatched(children, n) =~= Set::empty());
}

/// Whether the method of every accessor is made once, after its property:
/// no method with an accessor's selector comes before the property, and no
/// two children are methods with that selector.
pub open spec fn accessors_made_once(children: Seq<EntityView>) -> bool {
    forall|p: int, j: int, key: (bool, Seq<char>)|
        0 <= p < children.len() && 0 <= j < children.len() && #[trigger] is_accessor(
            children[p],
            key,
        ) && #[trigger] is_method_for(children[j], key) ==> p < j && no_method_between(
            children,
            key,
            p + 1,
            j,
        )
}

/// No accessor is a member twice: where the method of every accessor is
/// made once, after its property, no method among the members that the
/// walk found has the selector of an accessor of any property.
pub proof fn lemma_accessor_is_no_method(
    children: Seq<EntityView>,
    want_superclass: bool,
    want_generics: bool,
    data: Option<ClassDataView>,
    i: int,
    p: int,
)
    requires
        accessors_made_once(children),
        resolve_walk(children, want_superclass, want_generics, data) is Ok,
        0 <= i < resolve_walk(children, want_superclass, want_generics, data)->Ok_0.members.len(),
        resolve_walk(children, want_superclass, want_generics, data)->Ok_0.members[i] is Method,
        0 <= p < children.len(),
    ensures
        !is_accessor(
            children[p],
            (
                resolve_walk(
                    children,
                    want_superclass,
                    want_generics,
                    data,
                )->Ok_0.members[i]->Method_0.is_class,
                resolve_walk(
                    children,
                    want_superclass,
                    want_generics,
                    data,
                )->Ok_0.members[i]->Method_0.selector,
            ),
        ),
{
    lemma_walk_outcome(children, want_superclass, want_generics, data);
    let state = resolve_walk(children, want_superclass, want_generics, data)->Ok_0;
    let method = state.members[i]->Method_0;
    let key = (method.is_class, method.selector);
    let n = children.len() as int;
    if is_accessor(children[p], key) {
        let j = choose|j: int| read_at(children, method, j, n);
        assert(is_method_for(children[j], key));
        assert(p < j && no_method_between(children, key, p + 1, j));
        assert(pending_since(children, key, p, j));
        assert(unmatched(children, j).contains(key));
    }
}

} // verus!
