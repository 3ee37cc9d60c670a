//! The persisted form of a schema: its tables nested as blobs, with a version
//! tag.

use vstd::prelude::*;

use crate::ion::{
    blobs_at, entries_view, entry, int_at, ion_struct_bytes, names_nonempty, read_ion_struct,
    write_ion_struct, CodecError, FieldView, IonEntry, IonField,
};
use crate::table_dto::{table_bytes, TableDTO, TableDTOView};

verus! {

/// Mathematical value of a [`SchemaDTO`].
pub struct SchemaDTOView {
    pub tables: Seq<TableDTOView>,
    pub version: u8,
}

/// The fields a schema is persisted as, in order.
pub open spec fn schema_fields(s: SchemaDTOView) -> Seq<(Seq<char>, FieldView)> {
    seq![
        ("tables"@, FieldView::Blobs(s.tables.map_values(|t: TableDTOView| table_bytes(t)))),
        ("version"@, FieldView::Int(s.version as i64)),
    ]
}

/// The bytes a schema is persisted as.
pub open spec fn schema_bytes(s: SchemaDTOView) -> Seq<u8> {
    ion_struct_bytes(schema_fields(s))
}

#[derive(Debug)]
pub struct SchemaDTO {
    tables: Vec<TableDTO>,
    version: u8,
}

impl View for SchemaDTO {
    type V = SchemaDTOView;

    closed spec fn view(&self) -> SchemaDTOView {
        SchemaDTOView { tables: self.tables@.map_values(|t: TableDTO| t@), version: self.version }
    }
}

impl Clone for SchemaDTO {
    fn clone(&self) -> (r: Self)
        ensures
            r@ == self@,
    {
        let mut tables: Vec<TableDTO> = Vec::new();
        let mut i: usize = 0;
        while i < self.tables.len()
            invariant
                i <= self.tables@.len(),
                tables@.map_values(|t: TableDTO| t@) == self.tables@.subrange(0, i as int).map_values(
                    |t: TableDTO| t@,
                ),
            decreases self.tables@.len() - i,
        {
            let ghost before = tables@.map_values(|t: TableDTO| t@);
            let t = self.tables[i].clone();
            tables.push(t);
            assert(tables@.map_values(|t: TableDTO| t@) =~= before.push(self.tables@[i as int]@));
            assert(self.tables@.subrange(0, i + 1).map_values(|t: TableDTO| t@) =~= self.tables@.subrange(
                0,
                i as int,
            ).map_values(|t: TableDTO| t@).push(self.tables@[i as int]@));
            i += 1;
        }
        assert(self.tables@.subrange(0, i as int) =~= self.tables@);
        SchemaDTO { tables, version: self.version }
    }
}

impl PartialEq for SchemaDTO {
    fn eq(&self, other: &SchemaDTO) -> (r: bool)
        ensures
            r == (self@ == other@),
    {
        if !(self.version == other.version && self.tables.len() == other.tables.len()) {
            proof {
                if self@ == other@ {
                    assert(self@.tables.len() == self.tables@.len());
                    assert(other@.tables.len() == other.tables@.len());
                }
            }
            return false;
        }
        let mut i: usize = 0;
        while i < self.tables.len()
            invariant
                i <= self.tables@.len(),
                self.tables@.len() == other.tables@.len(),
                forall|k: int| 0 <= k < i ==> self.tables@[k]@ == other.tables@[k]@,
            decreases self.tables@.len() - i,
        {
            if !(self.tables[i] == other.tables[i]) {
                assert(self@.tables[i as int] != other@.tables[i as int]);
                return false;
            }
            i += 1;
        }
        assert(self@.tables =~= other@.tables);
        true
    }
}

impl vstd::std_specs::cmp::PartialEqSpecImpl for SchemaDTO {
    open spec fn obeys_eq_spec() -> bool {
        true
    }

    open spec fn eq_spec(&self, other: &SchemaDTO) -> bool {
        self@ == other@
    }
}

impl Eq for SchemaDTO {
}

impl SchemaDTO {
    pub fn new(tables: Vec<TableDTO>, version: u8) -> (r: Self)
        ensures
            r@ == (SchemaDTOView { tables: tables@.map_values(|t: TableDTO| t@), version }),
    {
        SchemaDTO { tables, version }
    }

    pub fn get_tables(&self) -> (r: &Vec<TableDTO>)
        ensures
            r@.map_values(|t: TableDTO| t@) == self@.tables,
    {
        &self.tables
    }

    pub fn get_version(&self) -> (r: u8)
        ensures
            r == self@.version,
    {
        self.version
    }

    /// Encodes this schema as one binary Ion struct, each table nested as the
    /// blob of its own encoding, followed by the version tag.
    pub fn encode(&self) -> (r: Vec<u8>)
        ensures
            r@ == schema_bytes(self@),
    {
        let mut blobs: Vec<Vec<u8>> = Vec::new();
        let mut i: usize = 0;
        while i < self.tables.len()
            invariant
                i <= self.tables@.len(),
                blobs@.map_values(|b: Vec<u8>| b@) == self@.tables.subrange(0, i as int).map_values(
                    |t: TableDTOView| table_bytes(t),
                ),
            decreases self.tables@.len() - i,
        {
            let b = self.tables[i].encode();
            assert(self@.tables[i as int] == self.tables@[i as int]@);
            let ghost before = blobs@.map_values(|b: Vec<u8>| b@);
            let ghost bv = b@;
            blobs.push(b);
            assert(blobs@.map_values(|b: Vec<u8>| b@) =~= before.push(bv));
            assert(self@.tables.subrange(0, i + 1).map_values(|t: TableDTOView| table_bytes(t))
                =~= self@.tables.subrange(0, i as int).map_values(|t: TableDTOView| table_bytes(t)).push(
                table_bytes(self@.tables[i as int]),
            ));
            i += 1;
        }
        assert(self@.tables.subrange(0, i as int) =~= self@.tables);
        let mut fields: Vec<IonEntry> = Vec::new();
        fields.push(entry("tables", IonField::Blobs(blobs)));
        fields.push(entry("version", IonField::Int(self.version as i64)));
        assert(entries_view(fields@) =~= schema_fields(self@));
        match write_ion_struct(&fields) {
            Some(b) => b,
            None => Vec::new(),
        }
    }

    /// Decodes a schema from the bytes `encode` writes for it.
    pub fn decode(data: &[u8]) -> (r: Result<SchemaDTO, CodecError>)
        requires
            exists|x: SchemaDTOView| #[trigger] schema_bytes(x) == data@,
        ensures
            forall|s: SchemaDTOView|
                #![trigger schema_bytes(s)]
                schema_bytes(s) == data@ ==> r is Ok && r->Ok_0@ == s,
    {
        proof {
            assert forall|s: SchemaDTOView| #[trigger] schema_bytes(s) == data@ implies names_nonempty(
                schema_fields(s),
            ) by {
                reveal_strlit("tables");
                reveal_strlit("version");
            }
        }
        proof {
            reveal_strlit("tables");
            reveal_strlit("version");
            let x0 = choose|x: SchemaDTOView| #[trigger] schema_bytes(x) == data@;
            assert(names_nonempty(schema_fields(x0)));
            assert(ion_struct_bytes(schema_fields(x0)) == data@);
        }
        let es = match read_ion_struct(data) {
            Some(es) => es,
            None => return Err(CodecError::IonFailure),
        };
        proof {
            assert forall|s: SchemaDTOView| #[trigger] schema_bytes(s) == data@ implies entries_view(es@)
                == schema_fields(s) by {
                assert(names_nonempty(schema_fields(s)));
            }
        }
        if es.len() != 2 {
            proof {
                assert forall|s: SchemaDTOView| #[trigger] schema_bytes(s) != data@ by {
                    if schema_bytes(s) == data@ {
                        assert(entries_view(es@).len() == 2);
                    }
                }
            }
            return Err(CodecError::UnexpectedLayout);
        }
        let blobs = match blobs_at(&es, 0) {
            Some(bs) => bs,
            None => {
                proof {
                    assert forall|s: SchemaDTOView| #[trigger] schema_bytes(s) != data@ by {
                        if schema_bytes(s) == data@ {
                            assert(entries_view(es@)[0] == es@[0]@);
                        }
                    }
                }
                return Err(CodecError::UnexpectedLayout);
            },
        };
        proof {
            assert forall|s: SchemaDTOView| #[trigger] schema_bytes(s) == data@ implies blobs@.map_values(
                |b: Vec<u8>| b@,
            ) == s.tables.map_values(|t: TableDTOView| table_bytes(t)) by {
                assert(entries_view(es@)[0] == es@[0]@);
            }
        }
        let mut tables: Vec<TableDTO> = Vec::new();
        let mut i: usize = 0;
        proof {
            assert forall|s: SchemaDTOView| #[trigger] schema_bytes(s) == data@ implies tables@.map_values(
                |t: TableDTO| t@,
            ) == s.tables.subrange(0, 0) by {
                assert(blobs@.map_values(|b: Vec<u8>| b@).len() == s.tables.len());
                assert(tables@.map_values(|t: TableDTO| t@) =~= s.tables.subrange(0, 0));
            }
        }
        while i < blobs.len()
            invariant
                i <= blobs@.len(),
                es@.len() == 2,
                exists|x: SchemaDTOView| #[trigger] schema_bytes(x) == data@,
                forall|s: SchemaDTOView| #[trigger] schema_bytes(s) == data@ ==> blobs@.map_values(
                    |b: Vec<u8>| b@,
                ) == s.tables.map_values(|t: TableDTOView| table_bytes(t)),
                forall|s: SchemaDTOView| #[trigger] schema_bytes(s) == data@ ==> tables@.map_values(
                    |t: TableDTO| t@,
                ) == s.tables.subrange(0, i as int),
            decreases blobs@.len() - i,
        {
            proof {
                let s0 = choose|x: SchemaDTOView| #[trigger] schema_bytes(x) == data@;
                let tb = s0.tables.map_values(|t: TableDTOView| table_bytes(t));
                assert(blobs@.map_values(|b: Vec<u8>| b@) == tb);
                assert(blobs@.map_values(|b: Vec<u8>| b@)[i as int] == blobs@[i as int]@);
                assert(tb[i as int] == table_bytes(s0.tables[i as int]));
            }
            let t = match TableDTO::decode(blobs[i].as_slice()) {
                Ok(t) => t,
                Err(e) => {
                    proof {
                        assert forall|s: SchemaDTOView| #[trigger] schema_bytes(s) != data@ by {
                            if schema_bytes(s) == data@ {
                                let tb = s.tables.map_values(|t: TableDTOView| table_bytes(t));
                                assert(blobs@.map_values(|b: Vec<u8>| b@)[i as int] == blobs@[i as int]@);
                                assert(tb[i as int] == table_bytes(s.tables[i as int]));
                            }
                        }
                    }
                    return Err(e);
                },
            };
            let ghost before = tables@.map_values(|t: TableDTO| t@);
            let ghost tv = t@;
            tables.push(t);
            proof {
                assert(tables@.map_values(|t: TableDTO| t@) =~= before.push(tv));
                assert forall|s: SchemaDTOView| #[trigger] schema_bytes(s) == data@ implies tables@.map_values(
                    |t: TableDTO| t@,
                ) == s.tables.subrange(0, i + 1) by {
                    let tb = s.tables.map_values(|t: TableDTOView| table_bytes(t));
                    assert(blobs@.map_values(|b: Vec<u8>| b@)[i as int] == blobs@[i as int]@);
                    assert(tb[i as int] == table_bytes(s.tables[i as int]));
                    assert(s.tables.subrange(0, i + 1) =~= s.tables.subrange(0, i as int).push(
                        s.tables[i as int],
                    ));
                }
            }
            i += 1;
        }
        proof {
            assert forall|s: SchemaDTOView| #[trigger] schema_bytes(s) == data@ implies tables@.map_values(
                |t: TableDTO| t@,
            ) == s.tables by {
                assert(blobs@.map_values(|b: Vec<u8>| b@).len() == s.tables.len());
                assert(s.tables.subrange(0, i as int) =~= s.tables);
            }
        }
        match int_at(&es, 1) {
            Some(v) => {
                if 0 <= v && v <= 255 {
                    Ok(SchemaDTO::new(tables, v as u8))
                } else {
                    Err(CodecError::UnexpectedLayout)
                }
            },
            None => Err(CodecError::UnexpectedLayout),
        }
    }
}

} // verus!
