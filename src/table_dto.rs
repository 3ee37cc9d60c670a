//! The persisted form of a table: its columns and relationships nested as
//! blobs.

use vstd::prelude::*;

use crate::column_dto::{column_bytes, ColumnDTO, ColumnDTOView};
use crate::ion::{
    blobs_at, entries_view, entry, flag_at, ion_struct_bytes, names_nonempty, read_ion_struct,
    text_at, write_ion_struct, CodecError, FieldView, IonEntry, IonField,
};
use crate::relationship_dto::{relationship_bytes, RelationshipDTO, RelationshipDTOView};

verus! {

/// Mathematical value of a [`TableDTO`].
pub struct TableDTOView {
    pub name: Seq<char>,
    pub columns: Seq<ColumnDTOView>,
    pub relationships: Seq<RelationshipDTOView>,
    pub saved_with_error: bool,
    pub api_code: Seq<char>,
}

/// The fields a table is persisted as, in order.
pub open spec fn table_fields(t: TableDTOView) -> Seq<(Seq<char>, FieldView)> {
    seq![
        ("name"@, FieldView::Text(t.name)),
        ("columns"@, FieldView::Blobs(t.columns.map_values(|c: ColumnDTOView| column_bytes(c)))),
        (
            "relationships"@,
            FieldView::Blobs(
                t.relationships.map_values(|r: RelationshipDTOView| relationship_bytes(r)),
            ),
        ),
        ("saved_with_error"@, FieldView::Flag(t.saved_with_error)),
        ("api_code"@, FieldView::Text(t.api_code)),
    ]
}

/// The bytes a table is persisted as.
pub open spec fn table_bytes(t: TableDTOView) -> Seq<u8> {
    ion_struct_bytes(table_fields(t))
}

#[derive(Debug)]
pub struct TableDTO {
    name: String,
    columns: Vec<ColumnDTO>,
    relationships: Vec<RelationshipDTO>,
    saved_with_error: bool,
    api_code: String,
}

impl View for TableDTO {
    type V = TableDTOView;

    closed spec fn view(&self) -> TableDTOView {
        TableDTOView {
            name: self.name@,
            columns: self.columns@.map_values(|c: ColumnDTO| c@),
            relationships: self.relationships@.map_values(|r: RelationshipDTO| r@),
            saved_with_error: self.saved_with_error,
            api_code: self.api_code@,
        }
    }
}

fn clone_columns(v: &Vec<ColumnDTO>) -> (r: Vec<ColumnDTO>)
    ensures
        r@.map_values(|c: ColumnDTO| c@) == v@.map_values(|c: ColumnDTO| c@),
{
    let mut r: Vec<ColumnDTO> = Vec::new();
    let mut i: usize = 0;
    while i < v.len()
        invariant
            i <= v@.len(),
            r@.map_values(|c: ColumnDTO| c@) == v@.subrange(0, i as int).map_values(|c: ColumnDTO| c@),
        decreases v@.len() - i,
    {
        let ghost before = r@.map_values(|c: ColumnDTO| c@);
        let c = v[i].clone();
        r.push(c);
        assert(r@.map_values(|c: ColumnDTO| c@) =~= before.push(v@[i as int]@));
        assert(v@.subrange(0, i + 1).map_values(|c: ColumnDTO| c@) =~= v@.subrange(0, i as int).map_values(
            |c: ColumnDTO| c@,
        ).push(v@[i as int]@));
        i += 1;
    }
    assert(v@.subrange(0, i as int) =~= v@);
    r
}

fn clone_relationships(v: &Vec<RelationshipDTO>) -> (r: Vec<RelationshipDTO>)
    ensures
        r@.map_values(|x: RelationshipDTO| x@) == v@.map_values(|x: RelationshipDTO| x@),
{
    let mut r: Vec<RelationshipDTO> = Vec::new();
    let mut i: usize = 0;
    while i < v.len()
        invariant
            i <= v@.len(),
            r@.map_values(|x: RelationshipDTO| x@) == v@.subrange(0, i as int).map_values(
                |x: RelationshipDTO| x@,
            ),
        decreases v@.len() - i,
    {
        let ghost before = r@.map_values(|x: RelationshipDTO| x@);
        let x = v[i].clone();
        r.push(x);
        assert(r@.map_values(|x: RelationshipDTO| x@) =~= before.push(v@[i as int]@));
        assert(v@.subrange(0, i + 1).map_values(|x: RelationshipDTO| x@) =~= v@.subrange(
            0,
            i as int,
        ).map_values(|x: RelationshipDTO| x@).push(v@[i as int]@));
        i += 1;
    }
    assert(v@.subrange(0, i as int) =~= v@);
    r
}

impl Clone for TableDTO {
    fn clone(&self) -> (r: Self)
        ensures
            r@ == self@,
    {
        TableDTO {
            name: self.name.clone(),
            columns: clone_columns(&self.columns),
            relationships: clone_relationships(&self.relationships),
            saved_with_error: self.saved_with_error,
            api_code: self.api_code.clone(),
        }
    }
}

impl PartialEq for TableDTO {
    fn eq(&self, other: &TableDTO) -> (r: bool)
        ensures
            r == (self@ == other@),
    {
        if !(self.name == other.name && self.saved_with_error == other.saved_with_error
            && self.api_code == other.api_code && self.columns.len() == other.columns.len()
            && self.relationships.len() == other.relationships.len()) {
            proof {
                if self@ == other@ {
                    assert(self@.columns.len() == self.columns@.len());
                    assert(other@.columns.len() == other.columns@.len());
                    assert(self@.relationships.len() == self.relationships@.len());
                    assert(other@.relationships.len() == other.relationships@.len());
                }
            }
            return false;
        }
        let mut i: usize = 0;
        while i < self.columns.len()
            invariant
                i <= self.columns@.len(),
                self.columns@.len() == other.columns@.len(),
                forall|k: int| 0 <= k < i ==> self.columns@[k]@ == other.columns@[k]@,
            decreases self.columns@.len() - i,
        {
            if !(self.columns[i] == other.columns[i]) {
                assert(self@.columns[i as int] != other@.columns[i as int]);
                return false;
            }
            i += 1;
        }
        assert(self@.columns =~= other@.columns);
        let mut j: usize = 0;
        while j < self.relationships.len()
            invariant
                j <= self.relationships@.len(),
                self.relationships@.len() == other.relationships@.len(),
                forall|k: int| 0 <= k < j ==> self.relationships@[k]@ == other.relationships@[k]@,
            decreases self.relationships@.len() - j,
        {
            if !(self.relationships[j] == other.relationships[j]) {
                assert(self@.relationships[j as int] != other@.relationships[j as int]);
                return false;
            }
            j += 1;
        }
        assert(self@.relationships =~= other@.relationships);
        true
    }
}

impl vstd::std_specs::cmp::PartialEqSpecImpl for TableDTO {
    open spec fn obeys_eq_spec() -> bool {
        true
    }

    open spec fn eq_spec(&self, other: &TableDTO) -> bool {
        self@ == other@
    }
}

impl Eq for TableDTO {
}

impl TableDTO {
    pub fn new(
        name: String,
        columns: Vec<ColumnDTO>,
        relationships: Vec<RelationshipDTO>,
        saved_with_error: bool,
        api_code: String,
    ) -> (r: Self)
        ensures
            r@ == (TableDTOView {
                name: name@,
                columns: columns@.map_values(|c: ColumnDTO| c@),
                relationships: relationships@.map_values(|x: RelationshipDTO| x@),
                saved_with_error,
                api_code: api_code@,
            }),
    {
        TableDTO { name, columns, relationships, saved_with_error, api_code }
    }

    pub fn get_name(&self) -> (r: &str)
        ensures
            r@ == self@.name,
    {
        self.name.as_str()
    }

    pub fn get_columns(&self) -> (r: &Vec<ColumnDTO>)
        ensures
            r@.map_values(|c: ColumnDTO| c@) == self@.columns,
    {
        &self.columns
    }

    pub fn get_relationships(&self) -> (r: &Vec<RelationshipDTO>)
        ensures
            r@.map_values(|x: RelationshipDTO| x@) == self@.relationships,
    {
        &self.relationships
    }

    pub fn is_saved_with_error(&self) -> (r: bool)
        ensures
            r == self@.saved_with_error,
    {
        self.saved_with_error
    }

    pub fn get_api_code(&self) -> (r: &str)
        ensures
            r@ == self@.api_code,
    {
        self.api_code.as_str()
    }

    /// Encodes this table as one binary Ion struct, each column and each
    /// relationship nested as the blob of its own encoding.
    pub fn encode(&self) -> (r: Vec<u8>)
        ensures
            r@ == table_bytes(self@),
    {
        let mut column_blobs: Vec<Vec<u8>> = Vec::new();
        let mut i: usize = 0;
        while i < self.columns.len()
            invariant
                i <= self.columns@.len(),
                column_blobs@.map_values(|b: Vec<u8>| b@) == self@.columns.subrange(0, i as int).map_values(
                    |c: ColumnDTOView| column_bytes(c),
                ),
            decreases self.columns@.len() - i,
        {
            let b = self.columns[i].encode();
            assert(self@.columns[i as int] == self.columns@[i as int]@);
            let ghost before = column_blobs@.map_values(|b: Vec<u8>| b@);
            let ghost bv = b@;
            column_blobs.push(b);
            assert(column_blobs@.map_values(|b: Vec<u8>| b@) =~= before.push(bv));
            assert(self@.columns.subrange(0, i + 1).map_values(|c: ColumnDTOView| column_bytes(c))
                =~= self@.columns.subrange(0, i as int).map_values(|c: ColumnDTOView| column_bytes(c)).push(
                column_bytes(self@.columns[i as int]),
            ));
            i += 1;
        }
        assert(self@.columns.subrange(0, i as int) =~= self@.columns);
        let mut relationship_blobs: Vec<Vec<u8>> = Vec::new();
        let mut j: usize = 0;
        while j < self.relationships.len()
            invariant
                j <= self.relationships@.len(),
                relationship_blobs@.map_values(|b: Vec<u8>| b@) == self@.relationships.subrange(
                    0,
                    j as int,
                ).map_values(|r: RelationshipDTOView| relationship_bytes(r)),
            decreases self.relationships@.len() - j,
        {
            let b = self.relationships[j].encode();
            assert(self@.relationships[j as int] == self.relationships@[j as int]@);
            let ghost before = relationship_blobs@.map_values(|b: Vec<u8>| b@);
            let ghost bv = b@;
            relationship_blobs.push(b);
            assert(relationship_blobs@.map_values(|b: Vec<u8>| b@) =~= before.push(bv));
            assert(self@.relationships.subrange(0, j + 1).map_values(
                |r: RelationshipDTOView| relationship_bytes(r),
            ) =~= self@.relationships.subrange(0, j as int).map_values(
                |r: RelationshipDTOView| relationship_bytes(r),
            ).push(relationship_bytes(self@.relationships[j as int])));
            j += 1;
        }
        assert(self@.relationships.subrange(0, j as int) =~= self@.relationships);
        let mut fields: Vec<IonEntry> = Vec::new();
        fields.push(entry("name", IonField::Text(self.name.clone())));
        fields.push(entry("columns", IonField::Blobs(column_blobs)));
        fields.push(entry("relationships", IonField::Blobs(relationship_blobs)));
        fields.push(entry("saved_with_error", IonField::Flag(self.saved_with_error)));
        fields.push(entry("api_code", IonField::Text(self.api_code.clone())));
        assert(entries_view(fields@) =~= table_fields(self@));
        match write_ion_struct(&fields) {
            Some(b) => b,
            None => Vec::new(),
        }
    }

    /// Decodes a table from the bytes `encode` writes for it.
    pub fn decode(data: &[u8]) -> (r: Result<TableDTO, CodecError>)
        requires
            exists|x: TableDTOView| #[trigger] table_bytes(x) == data@,
        ensures
            forall|t: TableDTOView|
                #![trigger table_bytes(t)]
                table_bytes(t) == data@ ==> r is Ok && r->Ok_0@ == t,
    {
        proof {
            assert forall|t: TableDTOView| #[trigger] table_bytes(t) == data@ implies names_nonempty(
                table_fields(t),
            ) by {
                reveal_strlit("name");
                reveal_strlit("columns");
                reveal_strlit("relationships");
                reveal_strlit("saved_with_error");
                reveal_strlit("api_code");
            }
        }
        proof {
            reveal_strlit("name");
            reveal_strlit("columns");
            reveal_strlit("relationships");
            reveal_strlit("saved_with_error");
            reveal_strlit("api_code");
            let x0 = choose|x: TableDTOView| #[trigger] table_bytes(x) == data@;
            assert(names_nonempty(table_fields(x0)));
            assert(ion_struct_bytes(table_fields(x0)) == data@);
        }
        let es = match read_ion_struct(data) {
            Some(es) => es,
            None => return Err(CodecError::IonFailure),
        };
        proof {
            assert forall|t: TableDTOView| #[trigger] table_bytes(t) == data@ implies entries_view(es@)
                == table_fields(t) by {
                assert(names_nonempty(table_fields(t)));
            }
        }
        if es.len() != 5 {
            proof {
                assert forall|t: TableDTOView| #[trigger] table_bytes(t) != data@ by {
                    if table_bytes(t) == data@ {
                        assert(entries_view(es@).len() == 5);
                    }
                }
            }
            return Err(CodecError::UnexpectedLayout);
        }
        proof {
            assert forall|t: TableDTOView| #[trigger] table_bytes(t) == data@ implies es@[1]@.1
                == FieldView::Blobs(t.columns.map_values(|c: ColumnDTOView| column_bytes(c)))
                && es@[2]@.1 == FieldView::Blobs(
                t.relationships.map_values(|r: RelationshipDTOView| relationship_bytes(r)),
            ) by {
                assert(entries_view(es@)[1] == es@[1]@);
                assert(entries_view(es@)[2] == es@[2]@);
            }
        }
        let column_blobs = match blobs_at(&es, 1) {
            Some(bs) => bs,
            None => return Err(CodecError::UnexpectedLayout),
        };
        let mut columns: Vec<ColumnDTO> = Vec::new();
        let mut i: usize = 0;
        proof {
            assert forall|t: TableDTOView| #[trigger] table_bytes(t) == data@ implies columns@.map_values(
                |c: ColumnDTO| c@,
            ) == t.columns.subrange(0, 0) by {
                assert(column_blobs@.map_values(|b: Vec<u8>| b@).len() == t.columns.len());
                assert(columns@.map_values(|c: ColumnDTO| c@) =~= t.columns.subrange(0, 0));
            }
        }
        while i < column_blobs.len()
            invariant
                i <= column_blobs@.len(),
                es@.len() == 5,
                exists|x: TableDTOView| #[trigger] table_bytes(x) == data@,
                es@[1]@.1 == FieldView::Blobs(column_blobs@.map_values(|b: Vec<u8>| b@)),
                forall|t: TableDTOView| #[trigger] table_bytes(t) == data@ ==> column_blobs@.map_values(
                    |b: Vec<u8>| b@,
                ) == t.columns.map_values(|c: ColumnDTOView| column_bytes(c)),
                forall|t: TableDTOView| #[trigger] table_bytes(t) == data@ ==> columns@.map_values(
                    |c: ColumnDTO| c@,
                ) == t.columns.subrange(0, i as int),
            decreases column_blobs@.len() - i,
        {
            proof {
                let t0 = choose|x: TableDTOView| #[trigger] table_bytes(x) == data@;
                let cb = t0.columns.map_values(|c: ColumnDTOView| column_bytes(c));
                assert(column_blobs@.map_values(|b: Vec<u8>| b@) == cb);
                assert(column_blobs@.map_values(|b: Vec<u8>| b@)[i as int] == column_blobs@[i as int]@);
                assert(cb[i as int] == column_bytes(t0.columns[i as int]));
            }
            let c = match ColumnDTO::decode(column_blobs[i].as_slice()) {
                Ok(c) => c,
                Err(e) => {
                    proof {
                        assert forall|t: TableDTOView| #[trigger] table_bytes(t) != data@ by {
                            if table_bytes(t) == data@ {
                                let cb = t.columns.map_values(|c: ColumnDTOView| column_bytes(c));
                                assert(column_blobs@.map_values(|b: Vec<u8>| b@) == cb);
                                assert(column_blobs@.map_values(|b: Vec<u8>| b@)[i as int] == column_blobs@[i as int]@);
                                assert(cb[i as int] == column_bytes(t.columns[i as int]));
                            }
                        }
                    }
                    return Err(e);
                },
            };
            columns.push(c);
            proof {
                assert forall|t: TableDTOView| #[trigger] table_bytes(t) == data@ implies columns@.map_values(
                    |c: ColumnDTO| c@,
                ) == t.columns.subrange(0, i + 1) by {
                    let cb = t.columns.map_values(|c: ColumnDTOView| column_bytes(c));
                    assert(column_blobs@.map_values(|b: Vec<u8>| b@) == cb);
                    assert(column_blobs@.map_values(|b: Vec<u8>| b@)[i as int] == column_blobs@[i as int]@);
                    assert(cb[i as int] == column_bytes(t.columns[i as int]));
                    assert(columns@.map_values(|c: ColumnDTO| c@) =~= t.columns.subrange(0, i + 1));
                }
            }
            i += 1;
        }
        proof {
            assert forall|t: TableDTOView| #[trigger] table_bytes(t) == data@ implies columns@.map_values(
                |c: ColumnDTO| c@,
            ) == t.columns by {
                let cb = t.columns.map_values(|c: ColumnDTOView| column_bytes(c));
                assert(column_blobs@.map_values(|b: Vec<u8>| b@) == cb);
                assert(t.columns.subrange(0, i as int) =~= t.columns);
            }
        }
        let relationship_blobs = match blobs_at(&es, 2) {
            Some(bs) => bs,
            None => return Err(CodecError::UnexpectedLayout),
        };
        let mut relationships: Vec<RelationshipDTO> = Vec::new();
        let mut j: usize = 0;
        proof {
            assert forall|t: TableDTOView| #[trigger] table_bytes(t) == data@ implies relationships@.map_values(
                |x: RelationshipDTO| x@,
            ) == t.relationships.subrange(0, 0) by {
                assert(relationship_blobs@.map_values(|b: Vec<u8>| b@).len() == t.relationships.len());
                assert(relationships@.map_values(|x: RelationshipDTO| x@) =~= t.relationships.subrange(0, 0));
            }
        }
        while j < relationship_blobs.len()
            invariant
                j <= relationship_blobs@.len(),
                es@.len() == 5,
                exists|x: TableDTOView| #[trigger] table_bytes(x) == data@,
                forall|t: TableDTOView| #[trigger] table_bytes(t) == data@ ==> columns@.map_values(
                    |c: ColumnDTO| c@,
                ) == t.columns,
                es@[2]@.1 == FieldView::Blobs(relationship_blobs@.map_values(|b: Vec<u8>| b@)),
                forall|t: TableDTOView| #[trigger] table_bytes(t) == data@ ==> relationship_blobs@.map_values(
                    |b: Vec<u8>| b@,
                ) == t.relationships.map_values(|r: RelationshipDTOView| relationship_bytes(r)),
                forall|t: TableDTOView| #[trigger] table_bytes(t) == data@ ==> relationships@.map_values(
                    |x: RelationshipDTO| x@,
                ) == t.relationships.subrange(0, j as int),
            decreases relationship_blobs@.len() - j,
        {
            proof {
                let t0 = choose|x: TableDTOView| #[trigger] table_bytes(x) == data@;
                let rb = t0.relationships.map_values(|r: RelationshipDTOView| relationship_bytes(r));
                assert(relationship_blobs@.map_values(|b: Vec<u8>| b@) == rb);
                assert(relationship_blobs@.map_values(|b: Vec<u8>| b@)[j as int] == relationship_blobs@[j as int]@);
                assert(rb[j as int] == relationship_bytes(t0.relationships[j as int]));
            }
            let x = match RelationshipDTO::decode(relationship_blobs[j].as_slice()) {
                Ok(x) => x,
                Err(e) => {
                    proof {
                        assert forall|t: TableDTOView| #[trigger] table_bytes(t) != data@ by {
                            if table_bytes(t) == data@ {
                                let rb = t.relationships.map_values(
                                    |r: RelationshipDTOView| relationship_bytes(r),
                                );
                                assert(relationship_blobs@.map_values(|b: Vec<u8>| b@) == rb);
                                assert(relationship_blobs@.map_values(|b: Vec<u8>| b@)[j as int] == relationship_blobs@[j as int]@);
                                assert(rb[j as int] == relationship_bytes(t.relationships[j as int]));
                                assert(relationship_blobs@[j as int]@ == relationship_bytes(
                                    t.relationships[j as int],
                                ));
                            }
                        }
                    }
                    return Err(e);
                },
            };
            relationships.push(x);
            proof {
                assert forall|t: TableDTOView| #[trigger] table_bytes(t) == data@ implies relationships@.map_values(
                    |x: RelationshipDTO| x@,
                ) == t.relationships.subrange(0, j + 1) by {
                    let rb = t.relationships.map_values(|r: RelationshipDTOView| relationship_bytes(r));
                    assert(relationship_blobs@.map_values(|b: Vec<u8>| b@) == rb);
                    assert(relationship_blobs@.map_values(|b: Vec<u8>| b@)[j as int] == relationship_blobs@[j as int]@);
                    assert(rb[j as int] == relationship_bytes(t.relationships[j as int]));
                    assert(relationship_blobs@[j as int]@ == relationship_bytes(t.relationships[j as int]));
                    assert(relationships@.map_values(|x: RelationshipDTO| x@) =~= t.relationships.subrange(
                        0,
                        j + 1,
                    ));
                }
            }
            j += 1;
        }
        proof {
            assert forall|t: TableDTOView| #[trigger] table_bytes(t) == data@ implies columns@.map_values(
                |c: ColumnDTO| c@,
            ) == t.columns && relationships@.map_values(|x: RelationshipDTO| x@) == t.relationships by {
                let rb = t.relationships.map_values(|r: RelationshipDTOView| relationship_bytes(r));
                assert(relationship_blobs@.map_values(|b: Vec<u8>| b@) == rb);
                assert(t.relationships.subrange(0, j as int) =~= t.relationships);
            }
        }
        let name = text_at(&es, 0);
        let saved_with_error = flag_at(&es, 3);
        let api_code = text_at(&es, 4);
        match (name, saved_with_error, api_code) {
            (Some(name), Some(saved_with_error), Some(api_code)) => {
                Ok(TableDTO::new(name, columns, relationships, saved_with_error, api_code))
            },
            _ => Err(CodecError::UnexpectedLayout),
        }
    }
}

} // verus!
