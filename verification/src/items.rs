//! The items that a statement needs and the item that it provides, by
//! name. Where an item lives is the override table's business.

use vstd::prelude::*;
use crate::rust_type::{GenericType, GenericTypeView, Ty, TyView};
use crate::stmt::{MemberView, MethodOrProperty, Stmt, StmtView};

verus! {

impl GenericTypeView {
    /// The names that the type mentions: its own, then those of its
    /// arguments in order.
    pub open spec fn names(self) -> Seq<Seq<char>>
        decreases self, self.generics.len() + 1,
    {
        seq![self.name] + self.argument_names(self.generics.len())
    }

    /// The names that the first `n` arguments mention.
    pub open spec fn argument_names(self, n: nat) -> Seq<Seq<char>>
        decreases self, n,
    {
        if n == 0 || n > self.generics.len() {
            Seq::empty()
        } else {
            self.argument_names((n - 1) as nat) + self.generics[n - 1].names()
        }
    }
}

/// The names of the types of `fields`, in order.
pub open spec fn type_names(fields: Seq<(Seq<char>, TyView)>) -> Seq<Seq<char>> {
    Seq::new(fields.len(), |i: int| fields[i].1.name)
}

impl MemberView {
    /// The names that the member mentions: for a method the types of its
    /// parameters and of its result, for a property its type.
    pub open spec fn items(self) -> Seq<Seq<char>> {
        match self {
            MemberView::Method(method) => type_names(method.arguments).push(
                method.result_type.name,
            ),
            MemberView::Property(property) => seq![property.ty.name],
        }
    }
}

/// The names that the members mention, member by member.
pub open spec fn members_items(members: Seq<MemberView>) -> Seq<Seq<char>>
    decreases members.len(),
{
    if members.len() == 0 {
        Seq::empty()
    } else {
        members_items(members.drop_last()) + members.last().items()
    }
}

impl StmtView {
    /// The names of the items that the statement needs, in the order in
    /// which it mentions them.
    pub open spec fn required_items(self) -> Seq<Seq<char>> {
        match self {
            StmtView::ClassDecl { ty, availability, superclass, protocols, methods, derives } => {
                (match superclass {
                    Some(parent) => parent.names(),
                    None => Seq::empty(),
                }) + protocols + members_items(methods)
            },
            StmtView::CategoryDecl { class_ty, availability, name, protocols, methods } => {
                seq![class_ty.name] + protocols + members_items(methods)
            },
            StmtView::ProtocolDecl { name, availability, protocols, methods } => {
                protocols + members_items(methods)
            },
            StmtView::StructDecl { name, boxable, fields } => type_names(fields),
            StmtView::EnumDecl { name, ty, kind, variants } => seq![ty.name],
            StmtView::VarDecl { name, ty, value } => seq![ty.name],
            StmtView::FnDecl { name, arguments, result_type, body } => type_names(arguments).push(
                result_type.name,
            ),
            StmtView::AliasDecl { name, ty } => seq![ty.name],
        }
    }

    /// The name of the item that the statement provides. A category
    /// provides none, nor does an enumeration without a name.
    pub open spec fn provided_item(self) -> Option<Seq<char>> {
        match self {
            StmtView::ClassDecl { ty, .. } => Some(ty.name),
            StmtView::CategoryDecl { .. } => None,
            StmtView::ProtocolDecl { name, .. } => Some(name),
            StmtView::StructDecl { name, .. } => Some(name),
            StmtView::EnumDecl { name, .. } => name,
            StmtView::VarDecl { name, .. } => Some(name),
            StmtView::FnDecl { name, .. } => Some(name),
            StmtView::AliasDecl { name, .. } => Some(name),
        }
    }
}

/// The names that the statements need, statement by statement.
pub open spec fn stmts_items(stmts: Seq<StmtView>) -> Seq<Seq<char>>
    decreases stmts.len(),
{
    if stmts.len() == 0 {
        Seq::empty()
    } else {
        stmts_items(stmts.drop_last()) + stmts.last().required_items()
    }
}

impl GenericType {
    /// Appends the names that the type mentions to `out`.
    pub fn push_names(&self, out: &mut Vec<String>)
        ensures
            final(out).deep_view() == old(out).deep_view() + self@.names(),
        decreases self,
    {
        proof {
            self.lemma_view();
        }
        let ghost before = out.deep_view();
        out.push(self.name.clone());
        assert(out.deep_view() =~= before.push(self.name@));
        assert(out.deep_view() =~= old(out).deep_view() + seq![self@.name]
            + self@.argument_names(0));
        let mut i: usize = 0;
        while i < self.generics.len()
            invariant
                i <= self.generics.len(),
                self@.generics.len() == self.generics.len(),
                forall|j: int|
                    0 <= j < self.generics.len() ==> self@.generics[j] == self.generics[j]@,
                out.deep_view() == old(out).deep_view() + seq![self@.name] + self@.argument_names(
                    i as nat,
                ),
            decreases self.generics.len() - i,
        {
            self.generics[i].push_names(out);
            i += 1;
            assert(out.deep_view() =~= old(out).deep_view() + seq![self@.name]
                + self@.argument_names(i as nat));
        }
        assert(out.deep_view() =~= old(out).deep_view() + self@.names());
    }
}

fn push_name_list(out: &mut Vec<String>, names: &Vec<String>)
    ensures
        final(out).deep_view() == old(out).deep_view() + names.deep_view(),
{
    let mut i: usize = 0;
    assert(out.deep_view() =~= old(out).deep_view() + names.deep_view().take(0));
    while i < names.len()
        invariant
            i <= names.len(),
            out.deep_view() == old(out).deep_view() + names.deep_view().take(i as int),
        decreases names.len() - i,
    {
        let ghost before = out.deep_view();
        out.push(names[i].clone());
        assert(out.deep_view() =~= before.push(names[i as int]@));
        assert(names.deep_view().take(i + 1) =~= names.deep_view().take(i as int).push(
            names[i as int]@,
        ));
        i += 1;
        assert(out.deep_view() =~= old(out).deep_view() + names.deep_view().take(i as int));
    }
    assert(names.deep_view().take(names.len() as int) =~= names.deep_view());
}

fn push_type_names(out: &mut Vec<String>, fields: &Vec<(String, Ty)>)
    ensures
        final(out).deep_view() == old(out).deep_view() + type_names(fields.deep_view()),
{
    let mut i: usize = 0;
    assert(out.deep_view() =~= old(out).deep_view() + type_names(fields.deep_view()).take(0));
    while i < fields.len()
        invariant
            i <= fields.len(),
            out.deep_view() == old(out).deep_view() + type_names(fields.deep_view()).take(
                i as int,
            ),
        decreases fields.len() - i,
    {
        let ghost before = out.deep_view();
        out.push(fields[i].1.name.clone());
        assert(out.deep_view() =~= before.push(fields[i as int].1.name@));
        assert(type_names(fields.deep_view()).take(i + 1) =~= type_names(fields.deep_view()).take(
            i as int,
        ).push(fields[i as int].1.name@));
        i += 1;
        assert(out.deep_view() =~= old(out).deep_view() + type_names(fields.deep_view()).take(
            i as int,
        ));
    }
    assert(type_names(fields.deep_view()).take(fields.len() as int) =~= type_names(
        fields.deep_view(),
    ));
}

impl MethodOrProperty {
    /// Appends the names that the member mentions to `out`.
    pub fn push_items(&self, out: &mut Vec<String>)
        ensures
            final(out).deep_view() == old(out).deep_view() + self@.items(),
    {
        match self {
            MethodOrProperty::Method(method) => {
                push_type_names(out, &method.arguments);
                let ghost before = out.deep_view();
                out.push(method.result_type.name.clone());
                assert(out.deep_view() =~= before.push(method.result_type.name@));
                assert(out.deep_view() =~= old(out).deep_view() + self@.items());
            },
            MethodOrProperty::Property(property) => {
                let ghost before = out.deep_view();
                out.push(property.ty.name.clone());
                assert(out.deep_view() =~= before.push(property.ty.name@));
                assert(out.deep_view() =~= old(out).deep_view() + self@.items());
            },
        }
    }
}

fn push_members_items(out: &mut Vec<String>, members: &Vec<MethodOrProperty>)
    ensures
        final(out).deep_view() == old(out).deep_view() + members_items(members.deep_view()),
{
    let mut i: usize = 0;
    assert(members.deep_view().take(0) =~= Seq::empty());
    assert(out.deep_view() =~= old(out).deep_view() + members_items(members.deep_view().take(0)));
    while i < members.len()
        invariant
            i <= members.len(),
            out.deep_view() == old(out).deep_view() + members_items(
                members.deep_view().take(i as int),
            ),
        decreases members.len() - i,
    {
        members[i].push_items(out);
        proof {
            let next = members.deep_view().take(i + 1);
            assert(next.drop_last() =~= members.deep_view().take(i as int));
            assert(next.last() == members[i as int]@);
            assert(out.deep_view() =~= old(out).deep_view() + members_items(next));
        }
        i += 1;
    }
    assert(members.deep_view().take(members.len() as int) =~= members.deep_view());
}

impl Stmt {
    /// Appends the names of the items that the statement needs to `out`.
    pub fn push_required_items(&self, out: &mut Vec<String>)
        ensures
            final(out).deep_view() == old(out).deep_view() + self@.required_items(),
    {
        match self {
            Stmt::ClassDecl { ty, availability, superclass, protocols, methods, derives } => {
                match superclass {
                    Some(parent) => parent.push_names(out),
                    None => {},
                }
                push_name_list(out, protocols);
                push_members_items(out, methods);
                assert(out.deep_view() =~= old(out).deep_view() + self@.required_items());
            },
            Stmt::CategoryDecl { class_ty, availability, name, protocols, methods } => {
                proof {
                    class_ty.lemma_view();
                }
                let ghost before = out.deep_view();
                out.push(class_ty.name.clone());
                assert(out.deep_view() =~= before.push(class_ty.name@));
                push_name_list(out, protocols);
                push_members_items(out, methods);
                assert(out.deep_view() =~= old(out).deep_view() + self@.required_items());
            },
            Stmt::ProtocolDecl { name, availability, protocols, methods } => {
                push_name_list(out, protocols);
                push_members_items(out, methods);
                assert(out.deep_view() =~= old(out).deep_view() + self@.required_items());
            },
            Stmt::StructDecl { name, boxable, fields } => {
                push_type_names(out, fields);
            },
            Stmt::EnumDecl { name, ty, kind, variants } => {
                let ghost before = out.deep_view();
                out.push(ty.name.clone());
                assert(out.deep_view() =~= before.push(ty.name@));
                assert(out.deep_view() =~= old(out).deep_view() + self@.required_items());
            },
            Stmt::VarDecl { name, ty, value } => {
                let ghost before = out.deep_view();
                out.push(ty.name.clone());
                assert(out.deep_view() =~= before.push(ty.name@));
                assert(out.deep_view() =~= old(out).deep_view() + self@.required_items());
            },
            Stmt::FnDecl { name, arguments, result_type, body } => {
                push_type_names(out, arguments);
                let ghost before = out.deep_view();
                out.push(result_type.name.clone());
                assert(out.deep_view() =~= before.push(result_type.name@));
                assert(out.deep_view() =~= old(out).deep_view() + self@.required_items());
            },
            Stmt::AliasDecl { name, ty } => {
                let ghost before = out.deep_view();
                out.push(ty.name.clone());
                assert(out.deep_view() =~= before.push(ty.name@));
                assert(out.deep_view() =~= old(out).deep_view() + self@.required_items());
            },
        }
    }

    /// The names of the items that the statement needs, in the order in
    /// which it mentions them.
    pub fn required_items(&self) -> (r: Vec<String>)
        ensures
            r.deep_view() == self@.required_items(),
    {
        let mut out: Vec<String> = Vec::new();
        assert(out.deep_view() =~= Seq::empty());
        self.push_required_items(&mut out);
        assert(out.deep_view() =~= self@.required_items());
        out
    }

    /// The name of the item that the statement provides, if it provides
    /// one.
    pub fn provided_item(&self) -> (r: Option<String>)
        ensures
            r.deep_view() == self@.provided_item(),
    {
        match self {
            Stmt::ClassDecl { ty, .. } => {
                proof {
                    ty.lemma_view();
                }
                Some(ty.name.clone())
            },
            Stmt::CategoryDecl { .. } => None,
            Stmt::ProtocolDecl { name, .. } => Some(name.clone()),
            Stmt::StructDecl { name, .. } => Some(name.clone()),
            Stmt::EnumDecl { name, .. } => name.clone(),
            Stmt::VarDecl { name, .. } => Some(name.clone()),
            Stmt::FnDecl { name, .. } => Some(name.clone()),
            Stmt::AliasDecl { name, .. } => Some(name.clone()),
        }
    }
}

/// The names that the statements need, statement by statement.
pub fn collect_items(out: &mut Vec<String>, stmts: &Vec<Stmt>)
    ensures
        final(out).deep_view() == old(out).deep_view() + stmts_items(stmts.deep_view()),
{
    let mut i: usize = 0;
    assert(stmts.deep_view().take(0) =~= Seq::empty());
    assert(out.deep_view() =~= old(out).deep_view() + stmts_items(stmts.deep_view().take(0)));
    while i < stmts.len()
        invariant
            i <= stmts.len(),
            out.deep_view() == old(out).deep_view() + stmts_items(stmts.deep_view().take(i as int)),
        decreases stmts.len() - i,
    {
        stmts[i].push_required_items(out);
        proof {
            let next = stmts.deep_view().take(i + 1);
            assert(next.drop_last() =~= stmts.deep_view().take(i as int));
            assert(next.last() == stmts[i as int]@);
            assert(out.deep_view() =~= old(out).deep_view() + stmts_items(next));
        }
        i += 1;
    }
    assert(stmts.deep_view().take(stmts.len() as int) =~= stmts.deep_view());
}

} // verus!
