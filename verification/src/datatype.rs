use crate::error::CompileError;
use crate::error::ErrorView;
use crate::symbol::same_text;
use crate::symbol::symbol_names;
use crate::symbol::Symbol;
use vstd::prelude::*;

verus! {

/// What a type descriptor says: its name, its supertype's name, its flags and,
/// for a composite type, its fields.
#[verifier::ext_equal]
pub struct DataTypeView {
    pub name: Seq<char>,
    pub supertype: Seq<char>,
    pub is_abstract: bool,
    pub is_mutable: bool,
    pub is_primitive: bool,
    pub field_names: Seq<Seq<char>>,
    pub field_types: Seq<DataTypeView>,
}

/// A nominal type descriptor.
#[derive(Debug)]
pub struct DataType {
    field_names: Vec<Symbol>,
    field_types: Box<Vec<DataType>>,
    name: Symbol,
    supertype: Symbol,
    is_abstract: bool,
    is_mutable: bool,
    is_primitive: bool,
}

impl DataType {
    /// What this descriptor says, its field types included.
    pub closed spec fn description(&self) -> DataTypeView
        decreases self,
    {
        DataTypeView {
            name: self.name@,
            supertype: self.supertype@,
            is_abstract: self.is_abstract,
            is_mutable: self.is_mutable,
            is_primitive: self.is_primitive,
            field_names: symbol_names(self.field_names@),
            field_types: Seq::new(
                self.field_types@.len(),
                |i: int|
                    if 0 <= i < self.field_types@.len() {
                        self.field_types@[i].description()
                    } else {
                        arbitrary()
                    },
            ),
        }
    }
}

impl View for DataType {
    type V = DataTypeView;

    open spec fn view(&self) -> DataTypeView {
        self.description()
    }
}

/// The views of a list of type descriptors.
pub open spec fn datatype_views(types: Seq<DataType>) -> Seq<DataTypeView> {
    Seq::new(types.len(), |i: int| types[i]@)
}

/// The scalar representation that the backend gives a primitive type.
#[derive(Clone, Copy, Debug, PartialEq, Eq, Structural)]
pub enum ScalarKind {
    Float32,
    Float64,
    Int32,
    Int64,
    String,
}

/// The fixed table from a primitive type's name to its scalar representation.
pub open spec fn scalar_of(name: Seq<char>) -> Option<ScalarKind> {
    if name == "Float32"@ {
        Some(ScalarKind::Float32)
    } else if name == "Float64"@ {
        Some(ScalarKind::Float64)
    } else if name == "Int32"@ {
        Some(ScalarKind::Int32)
    } else if name == "Int64"@ {
        Some(ScalarKind::Int64)
    } else if name == "String"@ {
        Some(ScalarKind::String)
    } else {
        None
    }
}

impl DataType {
    #[verifier::type_invariant]
    spec fn one_type_per_field(&self) -> bool {
        self.field_names@.len() == self.field_types@.len()
    }

    /// A descriptor with the given parts.
    pub fn new(
        name: Symbol,
        supertype: Symbol,
        is_abstract: bool,
        is_mutable: bool,
        is_primitive: bool,
        field_names: Vec<Symbol>,
        field_types: Box<Vec<DataType>>,
    ) -> (datatype: DataType)
        requires
            field_names@.len() == field_types@.len(),
        ensures
            datatype@ == (DataTypeView {
                name: name@,
                supertype: supertype@,
                is_abstract,
                is_mutable,
                is_primitive,
                field_names: symbol_names(field_names@),
                field_types: datatype_views(field_types@),
            }),
    {
        let datatype = DataType {
            field_names,
            field_types,
            name,
            supertype,
            is_abstract,
            is_mutable,
            is_primitive,
        };
        assert(datatype@.field_types.len() == field_types@.len());
        assert(datatype@.field_types =~= datatype_views(field_types@));
        datatype
    }

    /// A descriptor whose names are given as text.
    pub fn from_str(
        name: &str,
        supertype: &str,
        is_abstract: bool,
        is_mutable: bool,
        is_primitive: bool,
        field_names: Vec<String>,
        field_types: Box<Vec<DataType>>,
    ) -> (datatype: DataType)
        requires
            field_names@.len() == field_types@.len(),
        ensures
            datatype@ == (DataTypeView {
                name: name@,
                supertype: supertype@,
                is_abstract,
                is_mutable,
                is_primitive,
                field_names: Seq::new(field_names@.len(), |i: int| field_names@[i]@),
                field_types: datatype_views(field_types@),
            }),
    {
        let mut symbols: Vec<Symbol> = Vec::new();
        let mut i: usize = 0;
        while i < field_names.len()
            invariant
                i <= field_names@.len(),
                symbols@.len() == i,
                forall|k: int| 0 <= k < i ==> symbols@[k]@ == field_names@[k]@,
            decreases field_names@.len() - i,
        {
            symbols.push(Symbol::new(field_names[i].as_str()));
            i += 1;
        }
        assert(symbol_names(symbols@) =~= Seq::new(
            field_names@.len(),
            |i: int| field_names@[i]@,
        ));
        Self::new(
            Symbol::new(name),
            Symbol::new(supertype),
            is_abstract,
            is_mutable,
            is_primitive,
            symbols,
            field_types,
        )
    }

    /// An abstract type: no fields, never instantiated.
    pub fn new_abstract_type(name: &str, supertype: &str) -> (datatype: DataType)
        ensures
            datatype@ == (DataTypeView {
                name: name@,
                supertype: supertype@,
                is_abstract: true,
                is_mutable: false,
                is_primitive: false,
                field_names: Seq::empty(),
                field_types: Seq::empty(),
            }),
    {
        let field_names: Vec<Symbol> = Vec::new();
        let field_types: Box<Vec<DataType>> = Box::new(Vec::new());
        assert(symbol_names(field_names@) =~= Seq::empty());
        assert(datatype_views(field_types@) =~= Seq::empty());
        Self::new(
            Symbol::new(name),
            Symbol::new(supertype),
            true,
            false,
            false,
            field_names,
            field_types,
        )
    }

    /// A primitive type: no fields. The bit width belongs to the scalar
    /// representation and leaves no trace in the descriptor.
    pub fn new_primitive_type(name: &str, supertype: &str, _bits: u32) -> (datatype: DataType)
        ensures
            datatype@ == (DataTypeView {
                name: name@,
                supertype: supertype@,
                is_abstract: false,
                is_mutable: false,
                is_primitive: true,
                field_names: Seq::empty(),
                field_types: Seq::empty(),
            }),
    {
        let field_names: Vec<Symbol> = Vec::new();
        let field_types: Box<Vec<DataType>> = Box::new(Vec::new());
        assert(symbol_names(field_names@) =~= Seq::empty());
        assert(datatype_views(field_types@) =~= Seq::empty());
        Self::new(
            Symbol::new(name),
            Symbol::new(supertype),
            false,
            false,
            true,
            field_names,
            field_types,
        )
    }

    /// The type's name.
    pub fn name(&self) -> (name: &Symbol)
        ensures
            name@ == self@.name,
    {
        &self.name
    }

    /// The name of the type's supertype.
    pub fn supertype(&self) -> (supertype: &Symbol)
        ensures
            supertype@ == self@.supertype,
    {
        &self.supertype
    }

    /// The hash of the type's name.
    pub fn hash_id(&self) -> (hash: i64)
        ensures
            hash == crate::symbol::name_hash(self@.name),
    {
        self.name.hash()
    }

    /// Whether the type is abstract.
    pub fn is_abstract(&self) -> (flag: bool)
        ensures
            flag == self@.is_abstract,
    {
        self.is_abstract
    }

    /// Whether values of the type can be changed in place.
    pub fn is_mutable(&self) -> (flag: bool)
        ensures
            flag == self@.is_mutable,
    {
        self.is_mutable
    }

    /// Whether the type is primitive.
    pub fn is_primitive(&self) -> (flag: bool)
        ensures
            flag == self@.is_primitive,
    {
        self.is_primitive
    }

    /// The names of the fields, in declaration order.
    pub fn field_names(&self) -> (names: &Vec<Symbol>)
        ensures
            symbol_names(names@) == self@.field_names,
            names@.len() == self@.field_types.len(),
    {
        proof {
            use_type_invariant(self);
        }
        &self.field_names
    }

    /// The types of the fields, in declaration order.
    pub fn field_types(&self) -> (types: &Vec<DataType>)
        ensures
            datatype_views(types@) == self@.field_types,
            types@.len() == self@.field_names.len(),
    {
        proof {
            use_type_invariant(self);
            assert(datatype_views(self.field_types@) =~= self@.field_types);
        }
        &self.field_types
    }

    /// The scalar representation of the type, by its name.
    pub fn scalar_kind(&self) -> (kind: Result<ScalarKind, CompileError>)
        ensures
            match scalar_of(self@.name) {
                Some(k) => kind == Ok::<ScalarKind, CompileError>(k),
                None => kind is Err && kind->Err_0@ == ErrorView::UnsupportedPrimitive(
                    self@.name,
                ),
            },
    {
        let name = self.name.name();
        if same_text(name, "Float32") {
            Ok(ScalarKind::Float32)
        } else if same_text(name, "Float64") {
            Ok(ScalarKind::Float64)
        } else if same_text(name, "Int32") {
            Ok(ScalarKind::Int32)
        } else if same_text(name, "Int64") {
            Ok(ScalarKind::Int64)
        } else if same_text(name, "String") {
            Ok(ScalarKind::String)
        } else {
            Err(CompileError::UnsupportedPrimitive(name.to_owned()))
        }
    }
}

/// The root of the ordinary value hierarchy, as a wrapper around a value.
#[derive(Debug)]
pub struct Any<T> {
    val: T,
}

impl<T> Any<T> {
    /// Wraps a value.
    pub fn new(val: T) -> (any: Any<T>)
        ensures
            any.value() == val,
    {
        Any { val }
    }

    /// The value that is wrapped.
    pub closed spec fn value(&self) -> T {
        self.val
    }

    /// The type `Any`: its own supertype, concrete, mutable, without
    /// fields.
    pub fn any_type() -> (datatype: DataType)
        ensures
            datatype@ == (DataTypeView {
                name: "Any"@,
                supertype: "Any"@,
                is_abstract: false,
                is_mutable: true,
                is_primitive: false,
                field_names: Seq::empty(),
                field_types: Seq::empty(),
            }),
    {
        let field_names: Vec<Symbol> = Vec::new();
        let field_types: Box<Vec<DataType>> = Box::new(Vec::new());
        assert(symbol_names(field_names@) =~= Seq::empty());
        assert(datatype_views(field_types@) =~= Seq::empty());
        DataType::new(
            Symbol::new("Any"),
            Symbol::new("Any"),
            false,
            true,
            false,
            field_names,
            field_types,
        )
    }
}

impl Clone for DataType {
    fn clone(&self) -> (datatype: DataType)
        ensures
            datatype@ == self@,
        decreases self,
    {
        proof {
            use_type_invariant(self);
        }
        let mut field_names: Vec<Symbol> = Vec::new();
        let mut i: usize = 0;
        while i < self.field_names.len()
            invariant
                i <= self.field_names@.len(),
                field_names@.len() == i,
                forall|k: int| 0 <= k < i ==> field_names@[k]@ == self.field_names@[k]@,
            decreases self.field_names@.len() - i,
        {
            field_names.push(self.field_names[i].clone());
            i += 1;
        }
        let mut field_types: Vec<DataType> = Vec::new();
        let mut j: usize = 0;
        while j < self.field_types.len()
            invariant
                j <= self.field_types@.len(),
                field_types@.len() == j,
                forall|k: int| 0 <= k < j ==> field_types@[k]@ == self.field_types@[k]@,
            decreases self.field_types@.len() - j,
        {
            field_types.push(self.field_types[j].clone());
            j += 1;
        }
        let datatype = DataType {
            field_names,
            field_types: Box::new(field_types),
            name: self.name.clone(),
            supertype: self.supertype.clone(),
            is_abstract: self.is_abstract,
            is_mutable: self.is_mutable,
            is_primitive: self.is_primitive,
        };
        assert(datatype@.field_names =~= self@.field_names);
        assert(datatype@.field_types =~= self@.field_types);
        datatype
    }
}

} // verus!
