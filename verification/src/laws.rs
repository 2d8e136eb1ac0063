//! What holds of every sequence of operations, proved over the model that
//! the operations' contracts are stated in.

use vstd::prelude::*;
use crate::contract::{after_create, after_delete, after_update, delete_finds};
use crate::model::{listed_under, lookup, Table};
use crate::record::{RecordModel, Role};
use crate::service::{new_record, with_role};

verus! {

/// A record created from a name that is not empty is found under its
/// identifier, equal to what was created.
pub proof fn law_created_record_is_found(
    table: Table,
    id: Seq<char>,
    name: Seq<char>,
    contact: Seq<char>,
    role: Role,
)
    requires
        name.len() > 0,
    ensures
        lookup(after_create(table, new_record(id, name, contact, role)), id) == Some(
            new_record(id, name, contact, role),
        ),
{
}

/// Whatever record is created, it is found under its identifier, and every
/// other identifier holds what it held.
pub proof fn law_create_touches_one_identifier(table: Table, record: RecordModel, other: Seq<char>)
    ensures
        lookup(after_create(table, record), record.id) == Some(record),
        other != record.id ==> lookup(after_create(table, record), other) == lookup(table, other),
{
}

/// An update of an identifier that is not held changes nothing: not the
/// records, and so not their number.
pub proof fn law_update_of_absent_changes_nothing(table: Table, id: Seq<char>, record: RecordModel)
    requires
        !table.contains_key(id),
    ensures
        after_update(table, id, record) == table,
        after_update(table, id, record).len() == table.len(),
{
}

/// An update of an identifier that is held replaces the whole record, and
/// leaves the number of records as it was.
pub proof fn law_update_replaces_whole_record(table: Table, id: Seq<char>, record: RecordModel)
    requires
        table.dom().finite(),
        table.contains_key(id),
    ensures
        lookup(after_update(table, id, record), id) == Some(record),
        after_update(table, id, record).dom() == table.dom(),
        after_update(table, id, record).len() == table.len(),
{
}

/// A delete of an identifier that is held finds it, and nothing is found
/// under the identifier afterwards. A delete of an identifier that is not
/// held finds nothing and changes nothing.
pub proof fn law_deleted_record_is_gone(table: Table, id: Seq<char>)
    ensures
        delete_finds(table, id) == table.contains_key(id),
        lookup(after_delete(table, id), id) is None,
        !table.contains_key(id) ==> after_delete(table, id) == table,
{
}

/// Of two deletes of one identifier in a row, the first finds the record
/// where one is held, and the second finds nothing and changes nothing.
pub proof fn law_second_delete_finds_nothing(table: Table, id: Seq<char>)
    ensures
        table.contains_key(id) ==> delete_finds(table, id),
        !delete_finds(after_delete(table, id), id),
        after_delete(after_delete(table, id), id) == after_delete(table, id),
{
}

/// Operations on different identifiers take effect in either order with the
/// same outcome.
pub proof fn law_different_identifiers_commute(
    table: Table,
    first: RecordModel,
    second: RecordModel,
    id: Seq<char>,
    other: Seq<char>,
)
    requires
        first.id != second.id,
        id != other,
    ensures
        after_create(after_create(table, first), second) == after_create(
            after_create(table, second),
            first,
        ),
        after_delete(after_delete(table, id), other) == after_delete(
            after_delete(table, other),
            id,
        ),
        after_update(after_update(table, id, first), other, second) == after_update(
            after_update(table, other, second),
            id,
            first,
        ),
        first.id != id ==> after_delete(after_create(table, first), id) == after_create(
            after_delete(table, id),
            first,
        ),
        after_delete(after_update(table, other, second), id) == after_update(
            after_delete(table, id),
            other,
            second,
        ),
        first.id != other ==> after_update(after_create(table, first), other, second)
            == after_create(after_update(table, other, second), first),
{
    assert(after_create(after_create(table, first), second) =~= after_create(
        after_create(table, second),
        first,
    ));
    assert(after_delete(after_delete(table, id), other) =~= after_delete(
        after_delete(table, other),
        id,
    ));
    assert(after_update(after_update(table, id, first), other, second) =~= after_update(
        after_update(table, other, second),
        id,
        first,
    ));
    if first.id != id {
        assert(after_delete(after_create(table, first), id) =~= after_create(
            after_delete(table, id),
            first,
        ));
    }
    assert(after_delete(after_update(table, other, second), id) =~= after_update(
        after_delete(table, id),
        other,
        second,
    ));
    if first.id != other {
        assert(after_update(after_create(table, first), other, second) =~= after_create(
            after_update(table, other, second),
            first,
        ));
    }
}

/// The mapping after the records of `records` were created one after the
/// other, first to last.
pub open spec fn after_creates(table: Table, records: Seq<RecordModel>) -> Table
    decreases records.len(),
{
    if records.len() == 0 {
        table
    } else {
        after_create(after_creates(table, records.drop_last()), records.last())
    }
}

/// No two of `records` share an identifier.
pub open spec fn distinct_ids(records: Seq<RecordModel>) -> bool {
    forall|i: int, j: int| 0 <= i < j < records.len() ==> records[i].id != records[j].id
}

/// No lost writes: in whatever order creations of records with distinct
/// identifiers that are not yet held take effect, each of them adds one
/// record, each is found under its own identifier afterwards, and what was
/// held before is still held.
pub proof fn law_distinct_creates_are_all_kept(table: Table, records: Seq<RecordModel>)
    requires
        table.dom().finite(),
        distinct_ids(records),
        forall|i: int| 0 <= i < records.len() ==> !table.contains_key(#[trigger] records[i].id),
    ensures
        after_creates(table, records).dom().finite(),
        after_creates(table, records).len() == table.len() + records.len(),
        forall|i: int|
            0 <= i < records.len() ==> lookup(
                after_creates(table, records),
                #[trigger] records[i].id,
            ) == Some(records[i]),
        forall|id: Seq<char>| #[trigger]
            table.contains_key(id) ==> lookup(after_creates(table, records), id) == lookup(
                table,
                id,
            ),
        forall|id: Seq<char>| #[trigger]
            after_creates(table, records).contains_key(id) ==> table.contains_key(id) || exists|
                i: int,
            |
                0 <= i < records.len() && #[trigger] records[i].id == id,
    decreases records.len(),
{
    if records.len() > 0 {
        let earlier = records.drop_last();
        let last = records.last();
        law_distinct_creates_are_all_kept(table, earlier);
        let before = after_creates(table, earlier);
        assert(!before.contains_key(last.id));
        assert forall|i: int| 0 <= i < records.len() implies lookup(
            after_creates(table, records),
            #[trigger] records[i].id,
        ) == Some(records[i]) by {
            if i < earlier.len() {
                assert(lookup(before, earlier[i].id) == Some(earlier[i]));
            }
        }
    }
}

/// A record that a listing hands out is the record that is found under the
/// identifier it is held under: what is done to the copy afterwards has no
/// part in it.
pub proof fn law_listed_record_is_found(
    table: Table,
    keys: Seq<Seq<char>>,
    records: Seq<RecordModel>,
    i: int,
)
    requires
        listed_under(keys, records, table),
        0 <= i < records.len(),
    ensures
        lookup(table, keys[i]) == Some(records[i]),
{
}

/// A listing by role holds exactly those of the listed records that have the
/// role: none of another role, and none is left out.
pub proof fn law_role_listing_is_exact(all: Seq<RecordModel>, role: Role, record: RecordModel)
    ensures
        with_role(all, role).contains(record) <==> all.contains(record) && record.role == role,
    decreases all.len(),
{
    reveal(Seq::filter);
    if all.len() > 0 {
        law_role_listing_is_exact(all.drop_last(), role, record);
    }
}

} // verus!
