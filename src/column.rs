//! A named, typed column with key and nullability flags.

use vstd::prelude::*;

use crate::data_type::DataType;
use crate::text::owned;

verus! {

/// Mathematical value of a column.
pub struct ColumnView {
    pub name: Seq<char>,
    pub data_type: DataType,
    pub primary_key: bool,
    pub foreign_key: bool,
    pub nullable: bool,
}

#[derive(Debug)]
pub struct Column {
    name: String,
    data_type: DataType,
    primary_key: bool,
    foreign_key: bool,
    nullable: bool,
}

impl View for Column {
    type V = ColumnView;

    closed spec fn view(&self) -> ColumnView {
        ColumnView {
            name: self.name@,
            data_type: self.data_type,
            primary_key: self.primary_key,
            foreign_key: self.foreign_key,
            nullable: self.nullable,
        }
    }
}

impl Clone for Column {
    fn clone(&self) -> (r: Self)
        ensures
            r@ == self@,
    {
        Column::new(self.name.as_str(), self.data_type, self.primary_key, self.foreign_key, self.nullable)
    }
}

impl Default for Column {
    fn default() -> (r: Self)
        ensures
            r@ == (ColumnView {
                name: Seq::empty(),
                data_type: DataType::Integer,
                primary_key: false,
                foreign_key: false,
                nullable: false,
            }),
    {
        Column {
            name: String::new(),
            data_type: DataType::Integer,
            primary_key: false,
            foreign_key: false,
            nullable: false,
        }
    }
}

impl Column {
    pub fn new(
        name: &str,
        data_type: DataType,
        primary_key: bool,
        foreign_key: bool,
        nullable: bool,
    ) -> (r: Self)
        ensures
            r@ == (ColumnView { name: name@, data_type, primary_key, foreign_key, nullable }),
    {
        Column { name: owned(name), data_type, primary_key, foreign_key, nullable }
    }

    pub fn get_name(&self) -> (r: &str)
        ensures
            r@ == self@.name,
    {
        self.name.as_str()
    }

    pub fn get_data_type(&self) -> (r: DataType)
        ensures
            r == self@.data_type,
    {
        self.data_type
    }

    pub fn is_primary_key(&self) -> (r: bool)
        ensures
            r == self@.primary_key,
    {
        self.primary_key
    }

    pub fn is_foreign_key(&self) -> (r: bool)
        ensures
            r == self@.foreign_key,
    {
        self.foreign_key
    }

    pub fn is_nullable(&self) -> (r: bool)
        ensures
            r == self@.nullable,
    {
        self.nullable
    }

    pub fn get_name_mut(&mut self) -> (r: &mut String)
        ensures
            (*r)@ == old(self)@.name,
            final(self)@ == (ColumnView { name: final(r)@, ..old(self)@ }),
    {
        &mut self.name
    }

    pub fn get_data_type_mut(&mut self) -> (r: &mut DataType)
        ensures
            *r == old(self)@.data_type,
            final(self)@ == (ColumnView { data_type: *final(r), ..old(self)@ }),
    {
        &mut self.data_type
    }

    pub fn is_primary_key_mut(&mut self) -> (r: &mut bool)
        ensures
            *r == old(self)@.primary_key,
            final(self)@ == (ColumnView { primary_key: *final(r), ..old(self)@ }),
    {
        &mut self.primary_key
    }

    pub fn is_foreign_key_mut(&mut self) -> (r: &mut bool)
        ensures
            *r == old(self)@.foreign_key,
            final(self)@ == (ColumnView { foreign_key: *final(r), ..old(self)@ }),
    {
        &mut self.foreign_key
    }

    pub fn is_nullable_mut(&mut self) -> (r: &mut bool)
        ensures
            *r == old(self)@.nullable,
            final(self)@ == (ColumnView { nullable: *final(r), ..old(self)@ }),
    {
        &mut self.nullable
    }
}

} // verus!
