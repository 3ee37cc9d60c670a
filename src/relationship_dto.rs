//! The persisted form of a relationship.

use vstd::prelude::*;

use crate::ion::{
    entries_view, entry, int_at, ion_struct_bytes, names_nonempty, read_ion_struct, text_at,
    write_ion_struct, CodecError, FieldView, IonEntry, IonField,
};

verus! {

/// Mathematical value of a [`RelationshipDTO`].
pub struct RelationshipDTOView {
    pub from_table: Seq<char>,
    pub from_column: Seq<char>,
    pub to_table: Seq<char>,
    pub to_column: Seq<char>,
    pub relationship_type: u8,
}

/// The fields a relationship is persisted as, in order.
pub open spec fn relationship_fields(r: RelationshipDTOView) -> Seq<(Seq<char>, FieldView)> {
    seq![
        ("from_table"@, FieldView::Text(r.from_table)),
        ("from_column"@, FieldView::Text(r.from_column)),
        ("to_table"@, FieldView::Text(r.to_table)),
        ("to_column"@, FieldView::Text(r.to_column)),
        ("relationship_type"@, FieldView::Int(r.relationship_type as i64)),
    ]
}

/// The bytes a relationship is persisted as.
pub open spec fn relationship_bytes(r: RelationshipDTOView) -> Seq<u8> {
    ion_struct_bytes(relationship_fields(r))
}

#[derive(Debug)]
pub struct RelationshipDTO {
    from_table: String,
    from_column: String,
    to_table: String,
    to_column: String,
    relationship_type: u8,
}

impl View for RelationshipDTO {
    type V = RelationshipDTOView;

    closed spec fn view(&self) -> RelationshipDTOView {
        RelationshipDTOView {
            from_table: self.from_table@,
            from_column: self.from_column@,
            to_table: self.to_table@,
            to_column: self.to_column@,
            relationship_type: self.relationship_type,
        }
    }
}

impl Clone for RelationshipDTO {
    fn clone(&self) -> (r: Self)
        ensures
            r@ == self@,
    {
        RelationshipDTO {
            from_table: self.from_table.clone(),
            from_column: self.from_column.clone(),
            to_table: self.to_table.clone(),
            to_column: self.to_column.clone(),
            relationship_type: self.relationship_type,
        }
    }
}

impl PartialEq for RelationshipDTO {
    fn eq(&self, other: &RelationshipDTO) -> (r: bool)
        ensures
            r == (self@ == other@),
    {
        self.from_table == other.from_table && self.from_column == other.from_column
            && self.to_table == other.to_table && self.to_column == other.to_column
            && self.relationship_type == other.relationship_type
    }
}

impl vstd::std_specs::cmp::PartialEqSpecImpl for RelationshipDTO {
    open spec fn obeys_eq_spec() -> bool {
        true
    }

    open spec fn eq_spec(&self, other: &RelationshipDTO) -> bool {
        self@ == other@
    }
}

impl Eq for RelationshipDTO {
}

impl RelationshipDTO {
    pub fn new(
        from_table: String,
        from_column: String,
        to_table: String,
        to_column: String,
        relationship_type: u8,
    ) -> (r: Self)
        ensures
            r@ == (RelationshipDTOView {
                from_table: from_table@,
                from_column: from_column@,
                to_table: to_table@,
                to_column: to_column@,
                relationship_type,
            }),
    {
        RelationshipDTO { from_table, from_column, to_table, to_column, relationship_type }
    }

    pub fn get_from_table(&self) -> (r: &str)
        ensures
            r@ == self@.from_table,
    {
        self.from_table.as_str()
    }

    pub fn get_from_column(&self) -> (r: &str)
        ensures
            r@ == self@.from_column,
    {
        self.from_column.as_str()
    }

    pub fn get_to_table(&self) -> (r: &str)
        ensures
            r@ == self@.to_table,
    {
        self.to_table.as_str()
    }

    pub fn get_to_column(&self) -> (r: &str)
        ensures
            r@ == self@.to_column,
    {
        self.to_column.as_str()
    }

    pub fn get_relationship_type(&self) -> (r: u8)
        ensures
            r == self@.relationship_type,
    {
        self.relationship_type
    }

    /// Encodes this relationship as one binary Ion struct.
    pub fn encode(&self) -> (r: Vec<u8>)
        ensures
            r@ == relationship_bytes(self@),
    {
        let mut fields: Vec<IonEntry> = Vec::new();
        fields.push(entry("from_table", IonField::Text(self.from_table.clone())));
        fields.push(entry("from_column", IonField::Text(self.from_column.clone())));
        fields.push(entry("to_table", IonField::Text(self.to_table.clone())));
        fields.push(entry("to_column", IonField::Text(self.to_column.clone())));
        fields.push(entry("relationship_type", IonField::Int(self.relationship_type as i64)));
        assert(entries_view(fields@) =~= relationship_fields(self@));
        match write_ion_struct(&fields) {
            Some(b) => b,
            None => Vec::new(),
        }
    }

    /// Decodes a relationship from the bytes `encode` writes for it.
    pub fn decode(data: &[u8]) -> (r: Result<RelationshipDTO, CodecError>)
        requires
            exists|x: RelationshipDTOView| #[trigger] relationship_bytes(x) == data@,
        ensures
            forall|x: RelationshipDTOView|
                #![trigger relationship_bytes(x)]
                relationship_bytes(x) == data@ ==> r is Ok && r->Ok_0@ == x,
    {
        proof {
            reveal_strlit("from_table");
            reveal_strlit("from_column");
            reveal_strlit("to_table");
            reveal_strlit("to_column");
            reveal_strlit("relationship_type");
            let x0 = choose|x: RelationshipDTOView| #[trigger] relationship_bytes(x) == data@;
            assert(names_nonempty(relationship_fields(x0)));
            assert(ion_struct_bytes(relationship_fields(x0)) == data@);
        }
        let es = match read_ion_struct(data) {
            Some(es) => es,
            None => {
                proof {
                    assert forall|x: RelationshipDTOView| #[trigger] relationship_bytes(x) != data@ by {
                        reveal_strlit("from_table");
                        reveal_strlit("from_column");
                        reveal_strlit("to_table");
                        reveal_strlit("to_column");
                        reveal_strlit("relationship_type");
                        assert(names_nonempty(relationship_fields(x)));
                    }
                }
                return Err(CodecError::IonFailure);
            },
        };
        proof {
            assert forall|x: RelationshipDTOView| #[trigger] relationship_bytes(x) == data@ implies entries_view(
                es@,
            ) == relationship_fields(x) by {
                reveal_strlit("from_table");
                reveal_strlit("from_column");
                reveal_strlit("to_table");
                reveal_strlit("to_column");
                reveal_strlit("relationship_type");
                assert(names_nonempty(relationship_fields(x)));
            }
        }
        if es.len() != 5 {
            proof {
                assert forall|x: RelationshipDTOView| #[trigger] relationship_bytes(x) != data@ by {
                    if relationship_bytes(x) == data@ {
                        assert(entries_view(es@).len() == 5);
                    }
                }
            }
            return Err(CodecError::UnexpectedLayout);
        }
        let from_table = text_at(&es, 0);
        let from_column = text_at(&es, 1);
        let to_table = text_at(&es, 2);
        let to_column = text_at(&es, 3);
        let relationship_type = int_at(&es, 4);
        match (from_table, from_column, to_table, to_column, relationship_type) {
            (Some(from_table), Some(from_column), Some(to_table), Some(to_column), Some(t)) => {
                if 0 <= t && t <= 255 {
                    Ok(RelationshipDTO::new(from_table, from_column, to_table, to_column, t as u8))
                } else {
                    Err(CodecError::UnexpectedLayout)
                }
            },
            _ => Err(CodecError::UnexpectedLayout),
        }
    }
}

} // verus!
