//! Assembly of a document from commands, one after the other.

use vstd::prelude::*;
use crate::schema::{
    NfCmd, NfCmdView, NfListObject, NfListObjectView, NfObject, NfObjectView, Nftables,
    NftablesView, Rule, clone_objects, objects_view,
};

verus! {

/// The commands of a document in the making.
///
/// A batch starts empty and only grows: each operation appends one command, or several, and
/// none of them looks at what is there already. What the commands refer to is not checked
/// either: that is left to whoever applies the document.
#[derive(Debug, PartialEq, Eq)]
pub struct Batch {
    data: Vec<NfObject>,
}

/// A list of commands with one more appended for each item of `more`, in its order.
pub open spec fn appended(start: Seq<NfObjectView>, more: Seq<NfObjectView>) -> Seq<NfObjectView>
    decreases more.len(),
{
    if more.len() == 0 {
        start
    } else {
        appended(start, more.drop_last()).push(more.last())
    }
}

/// The `add` commands for a list of objects, in its order.
pub open spec fn adds(objs: Seq<NfListObjectView>) -> Seq<NfObjectView> {
    Seq::new(objs.len(), |i: int| NfObjectView::CmdObject(NfCmdView::Add(objs[i])))
}

/// The `delete` commands for a list of objects, in its order.
pub open spec fn deletes(objs: Seq<NfListObjectView>) -> Seq<NfObjectView> {
    Seq::new(objs.len(), |i: int| NfObjectView::CmdObject(NfCmdView::Delete(objs[i])))
}

/// The values of a list of objects.
pub open spec fn list_objects_view(objs: Seq<NfListObject>) -> Seq<NfListObjectView> {
    Seq::new(objs.len(), |i: int| objs[i].deep_view())
}

/// Appending commands one by one keeps what was there, adds exactly as many commands as
/// were appended, and keeps them in the order in which they were appended.
pub proof fn lemma_appended(start: Seq<NfObjectView>, more: Seq<NfObjectView>)
    ensures
        appended(start, more) == start + more,
        appended(start, more).len() == start.len() + more.len(),
        forall|i: int| 0 <= i < start.len() ==> appended(start, more)[i] == start[i],
        forall|i: int| 0 <= i < more.len() ==> appended(start, more)[start.len() + i] == more[i],
    decreases more.len(),
{
    if more.len() > 0 {
        lemma_appended(start, more.drop_last());
        assert((start + more.drop_last()).push(more.last()) =~= start + more);
    } else {
        assert(start + more =~= start);
    }
}

/// A batch that starts empty yields exactly the commands that were appended to it, in the
/// order in which they were appended.
pub proof fn lemma_order_preserved(more: Seq<NfObjectView>)
    ensures
        appended(Seq::empty(), more) == more,
{
    lemma_appended(Seq::empty(), more);
    assert(Seq::<NfObjectView>::empty() + more =~= more);
}

impl DeepView for Batch {
    type V = Seq<NfObjectView>;

    closed spec fn deep_view(&self) -> Seq<NfObjectView> {
        objects_view(self.data@)
    }
}

impl Clone for Batch {
    fn clone(&self) -> (b: Self)
        ensures
            b.deep_view() == self.deep_view(),
    {
        Batch { data: clone_objects(&self.data) }
    }
}

impl Batch {
    /// A batch without commands.
    pub fn new() -> (b: Batch)
        ensures
            b.deep_view() == Seq::<NfObjectView>::empty(),
    {
        let b = Batch { data: Vec::new() };
        assert(objects_view(b.data@) == Seq::<NfObjectView>::empty());
        b
    }

    /// How many commands the batch holds.
    pub fn len(&self) -> (n: usize)
        ensures
            n == self.deep_view().len(),
    {
        proof {
            crate::schema::lemma_objects_view_len(self.data@);
        }
        self.data.len()
    }

    /// Appends a command as it is given.
    pub fn add_cmd(&mut self, cmd: NfCmd)
        ensures
            final(self).deep_view() == old(self).deep_view().push(
                NfObjectView::CmdObject(cmd.deep_view()),
            ),
    {
        self.push(NfObject::CmdObject(cmd));
    }

    /// Appends an object as it is, without a command around it.
    pub fn add_obj(&mut self, obj: NfListObject)
        ensures
            final(self).deep_view() == old(self).deep_view().push(
                NfObjectView::ListObject(obj.deep_view()),
            ),
    {
        self.push(NfObject::ListObject(obj));
    }

    /// Appends an `add` command for an object.
    pub fn add(&mut self, obj: NfListObject)
        ensures
            final(self).deep_view() == old(self).deep_view().push(
                NfObjectView::CmdObject(NfCmdView::Add(obj.deep_view())),
            ),
    {
        self.add_cmd(NfCmd::Add(obj));
    }

    /// Appends an `insert` command for an object.
    pub fn insert(&mut self, obj: NfListObject)
        ensures
            final(self).deep_view() == old(self).deep_view().push(
                NfObjectView::CmdObject(NfCmdView::Insert(obj.deep_view())),
            ),
    {
        self.add_cmd(NfCmd::Insert(obj));
    }

    /// Appends a `replace` command for a rule.
    pub fn replace(&mut self, rule: Rule)
        ensures
            final(self).deep_view() == old(self).deep_view().push(
                NfObjectView::CmdObject(NfCmdView::Replace(rule.deep_view())),
            ),
    {
        self.add_cmd(NfCmd::Replace(rule));
    }

    /// Appends a `delete` command for an object.
    pub fn delete(&mut self, obj: NfListObject)
        ensures
            final(self).deep_view() == old(self).deep_view().push(
                NfObjectView::CmdObject(NfCmdView::Delete(obj.deep_view())),
            ),
    {
        self.add_cmd(NfCmd::Delete(obj));
    }

    /// Appends an `add` command for each object of a list, in the list's order.
    pub fn add_all(&mut self, objs: Vec<NfListObject>)
        ensures
            final(self).deep_view() == appended(
                old(self).deep_view(),
                adds(list_objects_view(objs@)),
            ),
    {
        let mut rest = objs;
        let ghost all = adds(list_objects_view(objs@));
        let ghost mut done: int = 0;
        assert(all.take(0) =~= Seq::empty());
        while rest.len() > 0
            invariant
                0 <= done <= objs.len(),
                all == adds(list_objects_view(objs@)),
                rest@ == objs@.skip(done),
                self.deep_view() == appended(old(self).deep_view(), all.take(done)),
            decreases rest.len(),
        {
            let obj = rest.remove(0);
            proof {
                assert(obj == objs@[done]);
                assert(all.take(done + 1).drop_last() =~= all.take(done));
                assert(all.take(done + 1).last() == NfObjectView::CmdObject(
                    NfCmdView::Add(obj.deep_view()),
                ));
                assert(rest@ =~= objs@.skip(done + 1));
                done = done + 1;
            }
            self.add(obj);
        }
        assert(all.take(done) =~= all);
    }

    /// Appends a `delete` command for each object of a list, in the list's order.
    pub fn delete_all(&mut self, objs: Vec<NfListObject>)
        ensures
            final(self).deep_view() == appended(
                old(self).deep_view(),
                deletes(list_objects_view(objs@)),
            ),
    {
        let mut rest = objs;
        let ghost all = deletes(list_objects_view(objs@));
        let ghost mut done: int = 0;
        assert(all.take(0) =~= Seq::empty());
        while rest.len() > 0
            invariant
                0 <= done <= objs.len(),
                all == deletes(list_objects_view(objs@)),
                rest@ == objs@.skip(done),
                self.deep_view() == appended(old(self).deep_view(), all.take(done)),
            decreases rest.len(),
        {
            let obj = rest.remove(0);
            proof {
                assert(obj == objs@[done]);
                assert(all.take(done + 1).drop_last() =~= all.take(done));
                assert(all.take(done + 1).last() == NfObjectView::CmdObject(
                    NfCmdView::Delete(obj.deep_view()),
                ));
                assert(rest@ =~= objs@.skip(done + 1));
                done = done + 1;
            }
            self.delete(obj);
        }
        assert(all.take(done) =~= all);
    }

    /// Ends the assembly: the document of the commands that were appended, as many and in
    /// the order in which they were appended.
    pub fn to_document(self) -> (d: Nftables)
        ensures
            d.deep_view() == (NftablesView { objects: self.deep_view() }),
    {
        Nftables { objects: self.data }
    }

/// Appends an item.
    fn push(&mut self, item: NfObject)
        ensures
            final(self).deep_view() == old(self).deep_view().push(item.deep_view()),
    {
        let ghost before = self.data@;
        self.data.push(item);
        proof {
            assert(self.data@.drop_last() =~= before);
            assert(objects_view(self.data@) == objects_view(self.data@.drop_last()).push(
                self.data@.last().deep_view(),
            ));
        }
    }
}

} // verus!
