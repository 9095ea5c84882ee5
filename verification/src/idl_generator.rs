// IDL description of structures, as A2L annotation text
//  IdlGenerator, IdlStructField, IdlStruct, IdlStructFieldVec, translate_idl_struct

use vstd::prelude::*;

use crate::strings::{ascii_lowercase, push_char, push_str, str_to_ascii_lowercase};

verus! {

/// A type that describes itself as an IDL structure
pub trait IdlGenerator {
    fn generate_idl() -> IdlStruct;
}

//----------------------------------------------------------------------------------------------
// Text

/// The IDL declaration of one field: "    {datatype} {name};"
pub open spec fn field_line(f: (Seq<char>, Seq<char>)) -> Seq<char> {
    seq![' ', ' ', ' ', ' '] + f.1 + seq![' '] + f.0 + seq![';']
}

/// The field declarations, separated by '\n'
pub open spec fn field_lines(fields: Seq<(Seq<char>, Seq<char>)>) -> Seq<char>
    decreases fields.len(),
{
    if fields.len() == 0 {
        Seq::empty()
    } else if fields.len() == 1 {
        field_line(fields[0])
    } else {
        field_lines(fields.drop_last()) + seq!['\n'] + field_line(fields.last())
    }
}

/// The annotation text of a structure with the given name and (name, datatype) fields
pub open spec fn idl_annotation(name: Seq<char>, fields: Seq<(Seq<char>, Seq<char>)>) -> Seq<char> {
    "\n        /begin ANNOTATION ANNOTATION_LABEL \"ObjectDescription\" ANNOTATION_ORIGIN \"application/dds\" /begin ANNOTATION_TEXT\n            \"<DynamicObject> \"\n            \"<RootType>Vector::"@
        + name + "Vector</RootType>\"\n            \"</DynamicObject>\"\n            \"module Vector {\"\n            \"  struct "@
        + name + " {\"\n            \""@ + field_lines(fields) + "\"\n            \"  };\"\n            \"  struct "@
        + name + "Vector {\"\n            \"    sequence<"@ + name + "> "@ + ascii_lowercase(name)
        + "s;\"\n            \"}; };\"\n        /end ANNOTATION_TEXT /end ANNOTATION\n        "@
}

/// The A2L annotation text that describes a structure in IDL
pub fn translate_idl_struct(input: &IdlStruct) -> (r: String)
    ensures
        r@ == idl_annotation(input.name_view(), input.fields_view()),
{
    let name = input.name();
    let lowercase_name = str_to_ascii_lowercase(name);
    let mut s = String::new();
    push_str(
        &mut s,
        "\n        /begin ANNOTATION ANNOTATION_LABEL \"ObjectDescription\" ANNOTATION_ORIGIN \"application/dds\" /begin ANNOTATION_TEXT\n            \"<DynamicObject> \"\n            \"<RootType>Vector::",
    );
    push_str(&mut s, name);
    push_str(
        &mut s,
        "Vector</RootType>\"\n            \"</DynamicObject>\"\n            \"module Vector {\"\n            \"  struct ",
    );
    push_str(&mut s, name);
    push_str(&mut s, " {\"\n            \"");
    input.fields().push_field_lines(&mut s);
    push_str(&mut s, "\"\n            \"  };\"\n            \"  struct ");
    push_str(&mut s, name);
    push_str(&mut s, "Vector {\"\n            \"    sequence<");
    push_str(&mut s, name);
    push_str(&mut s, "> ");
    push_str(&mut s, lowercase_name.as_str());
    push_str(&mut s, "s;\"\n            \"}; };\"\n        /end ANNOTATION_TEXT /end ANNOTATION\n        ");
    s
}

//----------------------------------------------------------------------------------------------
// IdlStructField

/// A field of a structure: name and IDL datatype
#[derive(Debug)]
pub struct IdlStructField(String, String);

impl View for IdlStructField {
    type V = (Seq<char>, Seq<char>);

    closed spec fn view(&self) -> (Seq<char>, Seq<char>) {
        (self.0@, self.1@)
    }
}

impl IdlStructField {
    pub fn new(name: String, field_type: String) -> (f: Self)
        ensures
            f@ == (name@, field_type@),
    {
        IdlStructField(name, field_type)
    }

    pub fn name(&self) -> (r: &str)
        ensures
            r@ == self@.0,
    {
        self.0.as_str()
    }

    pub fn datatype(&self) -> (r: &str)
        ensures
            r@ == self@.1,
    {
        self.1.as_str()
    }
}

//----------------------------------------------------------------------------------------------
// IdlStructFieldVec

/// The fields of a structure, in order
#[derive(Debug)]
pub struct IdlStructFieldVec(Vec<IdlStructField>);

impl View for IdlStructFieldVec {
    type V = Seq<(Seq<char>, Seq<char>)>;

    closed spec fn view(&self) -> Seq<(Seq<char>, Seq<char>)> {
        self.0@.map_values(|f: IdlStructField| f@)
    }
}

impl IdlStructFieldVec {
    pub fn new() -> (v: Self)
        ensures
            v@ == Seq::<(Seq<char>, Seq<char>)>::empty(),
    {
        let v = IdlStructFieldVec(Vec::new());
        assert(v@ =~= Seq::<(Seq<char>, Seq<char>)>::empty());
        v
    }

    pub fn with_capacity(capacity: usize) -> (v: Self)
        ensures
            v@ == Seq::<(Seq<char>, Seq<char>)>::empty(),
    {
        let v = IdlStructFieldVec(Vec::with_capacity(capacity));
        assert(v@ =~= Seq::<(Seq<char>, Seq<char>)>::empty());
        v
    }

    pub fn push(&mut self, field: IdlStructField)
        ensures
            final(self)@ == old(self)@.push(field@),
    {
        self.0.push(field);
        assert(self@ =~= old(self)@.push(field@));
    }

    /// The fields, in order
    pub fn iter(&self) -> (r: &[IdlStructField])
        ensures
            r@.map_values(|f: IdlStructField| f@) == self@,
    {
        self.0.as_slice()
    }

    /// Appends the field declarations, separated by '\n'
    fn push_field_lines(&self, s: &mut String)
        ensures
            final(s)@ == old(s)@ + field_lines(self@),
    {
        let ghost fv = self@;
        let mut i: usize = 0;
        assert(fv.take(0) =~= Seq::<(Seq<char>, Seq<char>)>::empty());
        assert(old(s)@ + field_lines(fv.take(0)) =~= old(s)@);
        while i < self.0.len()
            invariant
                i <= self.0@.len(),
                fv == self@,
                s@ == old(s)@ + field_lines(fv.take(i as int)),
            decreases self.0@.len() - i,
        {
            let f = &self.0[i];
            let ghost before = s@;
            if i > 0 {
                push_char(s, '\n');
            }
            push_str(s, "    ");
            push_str(s, f.datatype());
            push_char(s, ' ');
            push_str(s, f.name());
            push_char(s, ';');
            proof {
                reveal_strlit("    ");
                let t = fv.take(i + 1);
                assert(t.drop_last() =~= fv.take(i as int));
                assert(t.last() == fv[i as int]);
                assert(fv[i as int] == f@);
                if i == 0 {
                    assert(t.len() == 1);
                    assert(s@ =~= before + field_line(fv[i as int]));
                } else {
                    assert(s@ =~= before + seq!['\n'] + field_line(fv[i as int]));
                }
            }
            i += 1;
        }
        assert(fv.take(i as int) =~= fv);
    }
}

//----------------------------------------------------------------------------------------------
// IdlStruct

/// A structure: name and fields
#[derive(Debug)]
pub struct IdlStruct(String, IdlStructFieldVec);

impl IdlStruct {
    pub closed spec fn name_view(&self) -> Seq<char> {
        self.0@
    }

    pub closed spec fn fields_view(&self) -> Seq<(Seq<char>, Seq<char>)> {
        self.1@
    }

    pub fn new(name: String, fields: IdlStructFieldVec) -> (s: Self)
        ensures
            s.name_view() == name@,
            s.fields_view() == fields@,
    {
        IdlStruct(name, fields)
    }

    pub fn name(&self) -> (r: &str)
        ensures
            r@ == self.name_view(),
    {
        self.0.as_str()
    }

    pub fn fields(&self) -> (r: &IdlStructFieldVec)
        ensures
            r@ == self.fields_view(),
    {
        &self.1
    }
}

} // verus!
