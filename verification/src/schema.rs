use vstd::prelude::*;

verus! {

/// The closed set of physical encodings a column can store.
#[derive(Clone, Copy, PartialEq, Eq, Structural, Debug)]
pub enum PhysicalType {
    ByteString,
    Int32,
    Int64,
    Boolean,
}

/// One entry of a physical schema: field name, physical type, and whether a
/// value must be present on every row.
#[derive(Debug)]
pub struct FieldDescriptor {
    pub name: String,
    pub ty: PhysicalType,
    pub required: bool,
}

/// The mathematical shape of a schema entry.
pub struct FieldModel {
    pub name: Seq<char>,
    pub ty: PhysicalType,
    pub required: bool,
}

impl View for FieldDescriptor {
    type V = FieldModel;

    open spec fn view(&self) -> FieldModel {
        FieldModel { name: self.name@, ty: self.ty, required: self.required }
    }
}

/// The ordered list of field descriptors of one record kind; generated once
/// and then treated as immutable.
#[derive(Debug)]
pub struct SchemaDescriptor {
    fields: Vec<FieldDescriptor>,
}

impl View for SchemaDescriptor {
    type V = Seq<FieldModel>;

    closed spec fn view(&self) -> Seq<FieldModel> {
        self.fields@.map_values(|f: FieldDescriptor| f@)
    }
}

impl SchemaDescriptor {
    /// A schema with no fields yet.
    pub fn new() -> (s: Self)
        ensures
            s@ == Seq::<FieldModel>::empty(),
    {
        let s = SchemaDescriptor { fields: Vec::new() };
        proof {
            assert(s@ =~= Seq::<FieldModel>::empty());
        }
        s
    }

    /// Appends one field descriptor.
    pub fn push_field(&mut self, name: &str, ty: PhysicalType, required: bool)
        ensures
            final(self)@ == old(self)@.push((FieldModel { name: name@, ty, required })),
    {
        self.fields.push(FieldDescriptor { name: name.to_owned(), ty, required });
        proof {
            assert(self@ =~= old(self)@.push((FieldModel { name: name@, ty, required })));
        }
    }

    /// The number of fields.
    pub fn len(&self) -> (n: usize)
        ensures
            n == self@.len(),
    {
        self.fields.len()
    }

    /// The field descriptor at position `i`.
    pub fn field(&self, i: usize) -> (f: &FieldDescriptor)
        requires
            i < self@.len(),
        ensures
            f@ == self@[i as int],
    {
        &self.fields[i]
    }
}

} // verus!
