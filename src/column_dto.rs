//! The persisted form of a column.

use vstd::prelude::*;

use crate::ion::{
    entry, flag_at, read_ion_struct, text_at, write_ion_struct, entries_view, ion_struct_bytes,
    names_nonempty, CodecError, FieldView, IonEntry, IonField,
};

verus! {

/// Mathematical value of a [`ColumnDTO`].
pub struct ColumnDTOView {
    pub name: Seq<char>,
    pub data_type: Seq<char>,
    pub is_primary_key: bool,
    pub is_nullable: bool,
    pub api_code: Seq<char>,
}

/// The fields a column is persisted as, in order.
pub open spec fn column_fields(c: ColumnDTOView) -> Seq<(Seq<char>, FieldView)> {
    seq![
        ("name"@, FieldView::Text(c.name)),
        ("data_type"@, FieldView::Text(c.data_type)),
        ("is_primary_key"@, FieldView::Flag(c.is_primary_key)),
        ("is_nullable"@, FieldView::Flag(c.is_nullable)),
        ("api_code"@, FieldView::Text(c.api_code)),
    ]
}

/// The bytes a column is persisted as.
pub open spec fn column_bytes(c: ColumnDTOView) -> Seq<u8> {
    ion_struct_bytes(column_fields(c))
}

#[derive(Debug)]
pub struct ColumnDTO {
    name: String,
    data_type: String,
    is_primary_key: bool,
    is_nullable: bool,
    api_code: String,
}

impl View for ColumnDTO {
    type V = ColumnDTOView;

    closed spec fn view(&self) -> ColumnDTOView {
        ColumnDTOView {
            name: self.name@,
            data_type: self.data_type@,
            is_primary_key: self.is_primary_key,
            is_nullable: self.is_nullable,
            api_code: self.api_code@,
        }
    }
}

impl Clone for ColumnDTO {
    fn clone(&self) -> (r: Self)
        ensures
            r@ == self@,
    {
        ColumnDTO {
            name: self.name.clone(),
            data_type: self.data_type.clone(),
            is_primary_key: self.is_primary_key,
            is_nullable: self.is_nullable,
            api_code: self.api_code.clone(),
        }
    }
}

impl PartialEq for ColumnDTO {
    fn eq(&self, other: &ColumnDTO) -> (r: bool)
        ensures
            r == (self@ == other@),
    {
        self.name == other.name && self.data_type == other.data_type && self.is_primary_key
            == other.is_primary_key && self.is_nullable == other.is_nullable && self.api_code
            == other.api_code
    }
}

impl vstd::std_specs::cmp::PartialEqSpecImpl for ColumnDTO {
    open spec fn obeys_eq_spec() -> bool {
        true
    }

    open spec fn eq_spec(&self, other: &ColumnDTO) -> bool {
        self@ == other@
    }
}

impl Eq for ColumnDTO {
}

impl ColumnDTO {
    pub fn new(
        name: String,
        data_type: String,
        is_primary_key: bool,
        is_nullable: bool,
        api_code: String,
    ) -> (r: Self)
        ensures
            r@ == (ColumnDTOView {
                name: name@,
                data_type: data_type@,
                is_primary_key,
                is_nullable,
                api_code: api_code@,
            }),
    {
        ColumnDTO { name, data_type, is_primary_key, is_nullable, api_code }
    }

    pub fn get_name(&self) -> (r: &str)
        ensures
            r@ == self@.name,
    {
        self.name.as_str()
    }

    pub fn get_data_type(&self) -> (r: &str)
        ensures
            r@ == self@.data_type,
    {
        self.data_type.as_str()
    }

    pub fn is_primary_key(&self) -> (r: bool)
        ensures
            r == self@.is_primary_key,
    {
        self.is_primary_key
    }

    pub fn is_nullable(&self) -> (r: bool)
        ensures
            r == self@.is_nullable,
    {
        self.is_nullable
    }

    pub fn get_api_code(&self) -> (r: &str)
        ensures
            r@ == self@.api_code,
    {
        self.api_code.as_str()
    }

    /// Encodes this column as one binary Ion struct.
    pub fn encode(&self) -> (r: Vec<u8>)
        ensures
            r@ == column_bytes(self@),
    {
        let mut fields: Vec<IonEntry> = Vec::new();
        fields.push(entry("name", IonField::Text(self.name.clone())));
        fields.push(entry("data_type", IonField::Text(self.data_type.clone())));
        fields.push(entry("is_primary_key", IonField::Flag(self.is_primary_key)));
        fields.push(entry("is_nullable", IonField::Flag(self.is_nullable)));
        fields.push(entry("api_code", IonField::Text(self.api_code.clone())));
        assert(entries_view(fields@) =~= column_fields(self@));
        match write_ion_struct(&fields) {
            Some(b) => b,
            None => Vec::new(),
        }
    }

    /// Decodes a column from the bytes `encode` writes for it.
    pub fn decode(data: &[u8]) -> (r: Result<ColumnDTO, CodecError>)
        requires
            exists|x: ColumnDTOView| #[trigger] column_bytes(x) == data@,
        ensures
            forall|c: ColumnDTOView|
                #![trigger column_bytes(c)]
                column_bytes(c) == data@ ==> r is Ok && r->Ok_0@ == c,
    {
        proof {
            assert forall|c: ColumnDTOView| #[trigger] column_bytes(c) == data@ implies names_nonempty(
                column_fields(c),
            ) by {
                reveal_strlit("name");
                reveal_strlit("data_type");
                reveal_strlit("is_primary_key");
                reveal_strlit("is_nullable");
                reveal_strlit("api_code");
            }
        }
        proof {
            reveal_strlit("name");
            reveal_strlit("data_type");
            reveal_strlit("is_primary_key");
            reveal_strlit("is_nullable");
            reveal_strlit("api_code");
            let x0 = choose|x: ColumnDTOView| #[trigger] column_bytes(x) == data@;
            assert(names_nonempty(column_fields(x0)));
            assert(ion_struct_bytes(column_fields(x0)) == data@);
        }
        let es = match read_ion_struct(data) {
            Some(es) => es,
            None => return Err(CodecError::IonFailure),
        };
        proof {
            assert forall|c: ColumnDTOView| #[trigger] column_bytes(c) == data@ implies entries_view(es@)
                == column_fields(c) by {
                assert(names_nonempty(column_fields(c)));
            }
        }
        if es.len() != 5 {
            proof {
                assert forall|c: ColumnDTOView| #[trigger] column_bytes(c) != data@ by {
                    if column_bytes(c) == data@ {
                        assert(entries_view(es@).len() == 5);
                    }
                }
            }
            return Err(CodecError::UnexpectedLayout);
        }
        let name = text_at(&es, 0);
        let data_type = text_at(&es, 1);
        let is_primary_key = flag_at(&es, 2);
        let is_nullable = flag_at(&es, 3);
        let api_code = text_at(&es, 4);
        match (name, data_type, is_primary_key, is_nullable, api_code) {
            (Some(name), Some(data_type), Some(is_primary_key), Some(is_nullable), Some(api_code)) => {
                Ok(ColumnDTO::new(name, data_type, is_primary_key, is_nullable, api_code))
            },
            _ => Err(CodecError::UnexpectedLayout),
        }
    }
}

} // verus!
