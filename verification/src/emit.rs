use crate::backend::array_basic;
use crate::backend::declared_as;
use crate::backend::return_built;
use crate::backend::builder_alloca;
use crate::backend::cast_of;
use crate::backend::constant_bytes;
use crate::backend::int_basic;
use crate::backend::int_constant;
use crate::backend::int_value_width;
use crate::primitive::holds_text;
use crate::primitive::points_to_text;
use crate::primitive::text_bytes;
use crate::symbol::name_hash;
use inkwell::values::BasicValueEnum;
use inkwell::values::IntValue;
use crate::backend::came_as;
use crate::backend::field_address;
use crate::backend::field_of;
use crate::backend::field_value;
use crate::backend::is_parameter;
use crate::backend::loaded_from;
use crate::backend::parameter_of;
use crate::backend::plain_call;
use crate::backend::plain_function;
use crate::backend::pointer_basic;
use crate::backend::scalar_type;
use crate::backend::stored;
use crate::backend::takes_scalars;
use crate::backend::function_type_of;
use crate::backend::same_function_type;
use crate::backend::builder_call;
use crate::backend::builder_load;
use crate::backend::builder_pointer_cast;
use crate::backend::builder_position_at_end;
use crate::backend::builder_return_pointer;
use crate::backend::builder_store_array;
use crate::backend::builder_store_int;
use crate::backend::builder_store_pointer;
use crate::backend::builder_struct_gep;
use crate::backend::call_result;
use crate::backend::array_basic_type;
use crate::backend::context_append_basic_block;
use crate::backend::context_const_string;
use crate::backend::context_opaque_struct_type;
use crate::backend::default_address_space;
use crate::backend::function_nth_param;
use crate::backend::global_as_pointer;
use crate::backend::int_const;
use crate::backend::int_field;
use crate::backend::pointer_argument;
use crate::backend::pointer_field;
use crate::backend::pointer_fn_type;
use crate::backend::pointer_param;
use crate::backend::struct_basic_type;
use crate::backend::struct_ptr_type;
use crate::backend::struct_set_body;
use crate::backend::value_of_basic;
use crate::backend::Value;
use crate::datatype::DataType;
use crate::error::CompileError;
use crate::error::ErrorView;
use crate::module::Module;
use crate::primitive::accepted;
use crate::symbol::Symbol;
use inkwell::types::StructType;
use inkwell::builder::Builder;
use inkwell::types::BasicMetadataTypeEnum;
use inkwell::types::BasicTypeEnum;
use inkwell::values::BasicMetadataValueEnum;
use inkwell::values::FunctionValue;
use inkwell::values::PointerValue;
use vstd::prelude::*;

verus! {

/// Whether an emission failed for one of the reasons that the backend
/// decides: an instruction it refused, a layout or a global it does not
/// hold, or a value of another kind than the layout asks for.
pub open spec fn backend_decided(error: ErrorView) -> bool {
    error is Backend || error is UndefinedType || error is UndefinedSymbol
        || error is UndefinedFunction || error is TypeMismatch
}

/// How an emission fails that reads the layouts of symbols and of type
/// descriptors: a layout that the backend does not hold, a value of
/// another kind than a field asks for, or an instruction that the backend
/// refuses.
pub open spec fn layout_fault(error: ErrorView) -> bool {
    error == ErrorView::UndefinedType("Symbol"@) || error == ErrorView::UndefinedType(
        "DataType"@,
    ) || error == ErrorView::TypeMismatch || error == ErrorView::Backend
}

/// A value of the language that can be put into stack storage.
pub trait LLVMAlloca<'a> {
    /// Emits the value into stack storage and returns its address.
    fn emit_ir_alloca(&self, builder: &Builder<'a>, module: &Module<'a>) -> (r: Result<
        PointerValue<'a>,
        CompileError,
    >)
        ensures
            r is Err ==> backend_decided(r->Err_0@),
    ;
}

/// A type of the language that stands in the backend as a global.
pub trait LLVMType<'a> {
    /// Declares the global that stands for the type.
    fn emit_ir_type(&self, module: &Module<'a>) -> (r: Result<(), CompileError>)
        ensures
            r is Err ==> backend_decided(r->Err_0@),
    ;
}

/// A type of the language whose layout and run-time functions the
/// bootstrap module holds.
pub trait FarneseInternal<'a> {
    /// Declares the layout and emits the functions that build and read
    /// values of it.
    fn bootstrap(&self, module: &Module<'a>) -> (r: Result<(), CompileError>)
        ensures
            r is Err ==> backend_decided(r->Err_0@),
    ;

    /// Emits the function that builds the type's descriptor at run time.
    fn create_datatype(&self, module: &Module<'a>) -> (r: Result<(), CompileError>)
        ensures
            r is Err ==> backend_decided(r->Err_0@),
    ;

    /// Emits the functions that read the fields.
    fn create_get_methods(&self, module: &Module<'a>) -> (r: Result<(), CompileError>)
        ensures
            r is Err ==> backend_decided(r->Err_0@),
    ;

    /// Emits the function that builds a value.
    fn create_new_method(&self, module: &Module<'a>) -> (r: Result<(), CompileError>)
        ensures
            r is Err ==> backend_decided(r->Err_0@),
    ;

    /// Declares the layout.
    fn create_opaque_type(&self, module: &Module<'a>) -> (r: Result<(), CompileError>)
        ensures
            r is Err ==> backend_decided(r->Err_0@),
    ;
}

/// A value of the language that the output routine can print.
pub trait LLVMPrintf<'a> {
    /// Emits a call of the output routine that prints the value, and
    /// returns what the call returns.
    fn emit_ir_printf(&self, builder: &Builder<'a>, module: &Module<'a>) -> (r: Result<
        Value<'a>,
        CompileError,
    >)
        ensures
            r is Err ==> backend_decided(r->Err_0@) || r->Err_0@ is UnsupportedPrimitive,
    ;
}

/// A value of the language that stands in the backend as a constant.
pub trait LLVMValue<'a> {
    /// The value as a constant of the backend.
    fn emit_ir_value(&self, builder: &Builder<'a>, module: &Module<'a>) -> (r: Result<
        Value<'a>,
        CompileError,
    >)
        ensures
            r is Err ==> backend_decided(r->Err_0@),
    ;
}

/// What a field of a layout of the runtime holds.
#[derive(Clone, Copy, Debug, PartialEq, Eq, Structural)]
pub enum Field {
    /// A 64-bit hash.
    Hash,
    /// The address of the bytes of a text.
    Text,
    /// The address of a symbol.
    SymbolAddress,
    /// The address of a type descriptor.
    DescriptorAddress,
}

/// The layout of a symbol: the hash of its name, then the name's text.
pub open spec fn symbol_layout() -> Seq<Field> {
    seq![Field::Hash, Field::Text]
}

/// The layout of a type descriptor: the symbol of its name, then the
/// descriptor of its supertype.
pub open spec fn descriptor_layout() -> Seq<Field> {
    seq![Field::SymbolAddress, Field::DescriptorAddress]
}

/// The fields of the symbol layout, in order.
pub fn symbol_fields() -> (fields: Vec<Field>)
    ensures
        fields@ == symbol_layout(),
{
    let mut fields: Vec<Field> = Vec::new();
    fields.push(Field::Hash);
    fields.push(Field::Text);
    assert(fields@ =~= symbol_layout());
    fields
}

/// The fields of the layout of a type descriptor, in order.
pub fn descriptor_fields() -> (fields: Vec<Field>)
    ensures
        fields@ == descriptor_layout(),
{
    let mut fields: Vec<Field> = Vec::new();
    fields.push(Field::SymbolAddress);
    fields.push(Field::DescriptorAddress);
    assert(fields@ =~= descriptor_layout());
    fields
}

/// The backend types of the fields of a layout, in order. `symbol` and
/// `descriptor` are the two layouts, as far as they are declared; a field
/// that points to a layout that is not given is refused.
pub fn field_types<'a>(
    module: &Module<'a>,
    fields: &Vec<Field>,
    symbol: Option<StructType<'a>>,
    descriptor: Option<StructType<'a>>,
) -> (r: Result<Vec<BasicTypeEnum<'a>>, CompileError>)
    ensures
        r is Ok ==> r->Ok_0@.len() == fields@.len(),
        r is Ok <==> forall|i: int|
            0 <= i < fields@.len() ==> (#[trigger] fields@[i] == Field::SymbolAddress ==> symbol is Some)
                && (fields@[i] == Field::DescriptorAddress ==> descriptor is Some),
        r is Err ==> layout_fault(r->Err_0@),
{
    let mut types: Vec<BasicTypeEnum<'a>> = Vec::new();
    let mut i: usize = 0;
    while i < fields.len()
        invariant
            i <= fields@.len(),
            types@.len() == i,
            forall|k: int|
                0 <= k < i ==> (#[trigger] fields@[k] == Field::SymbolAddress ==> symbol is Some)
                    && (fields@[k] == Field::DescriptorAddress ==> descriptor is Some),
        decreases fields@.len() - i,
    {
        let ty = match fields[i] {
            Field::Hash => int_field(module.i64_type()),
            Field::Text => pointer_field(module.i8_ptr_type()),
            Field::SymbolAddress => match symbol {
                Some(layout) => pointer_field(struct_ptr_type(layout, default_address_space())),
                None => {
                    return Err(CompileError::UndefinedType("Symbol".to_owned()));
                },
            },
            Field::DescriptorAddress => match descriptor {
                Some(layout) => pointer_field(struct_ptr_type(layout, default_address_space())),
                None => {
                    return Err(CompileError::UndefinedType("DataType".to_owned()));
                },
            },
        };
        types.push(ty);
        i += 1;
    }
    Ok(types)
}

/// Whether `value` was stored in the field at `index` of the struct that
/// `ptr` points to.
pub open spec fn field_holds<'a>(ptr: PointerValue<'a>, index: u32, value: BasicValueEnum<'a>) -> bool {
    exists|field: PointerValue<'a>| #[trigger] field_of(field, ptr, index) && stored(field, value)
}

/// Whether `ptr` is the address of a symbol in stack storage: its first
/// field holds the 64-bit constant of the hash, its second the address of
/// the bytes of the name, closed by a zero byte.
pub open spec fn symbol_emitted<'a>(name: Seq<char>, hash: i64, ptr: PointerValue<'a>) -> bool {
    exists|constant: IntValue<'a>, text: PointerValue<'a>|
        #![trigger int_basic(constant), pointer_basic(text)]
        field_holds(ptr, 0, int_basic(constant)) && int_value_width(constant) == 64
            && int_constant(constant) == Some(hash as u64) && field_holds(
            ptr,
            1,
            pointer_basic(text),
        ) && points_to_text(text, text_bytes(name))
}

/// Whether `ptr` is the address of a type descriptor in stack storage: its
/// first field holds the address of a symbol of the type's name, its
/// second the address of the descriptor itself.
pub open spec fn descriptor_emitted<'a>(name: Seq<char>, ptr: PointerValue<'a>) -> bool {
    exists|symbol: PointerValue<'a>|
        #![trigger pointer_basic(symbol)]
        symbol_emitted(name, name_hash(name), symbol) && field_holds(
            ptr,
            0,
            pointer_basic(symbol),
        ) && field_holds(ptr, 1, pointer_basic(ptr))
}

/// Whether `function` is a reader of type descriptors as the runtime holds
/// it: declared under `name`, it returns the pointer that it loads from
/// the field at `index` of the descriptor that it is handed.
pub open spec fn reader_emitted<'a>(name: Seq<char>, index: u32, function: FunctionValue<'a>) -> bool {
    declared_as(function, name) && exists|object: PointerValue<'a>, field: PointerValue<'a>|
        #![trigger field_value(Value::Pointer(field), object, index)]
        is_parameter(Value::Pointer(object), function, 0) && field_value(
            Value::Pointer(field),
            object,
            index,
        ) && return_built(pointer_basic(field))
}

/// Whether `function` is the maker of type descriptors as the runtime
/// holds it: declared under the name `Datatype`, it stores the symbol and
/// the supertype that it is handed in the two fields of a descriptor in
/// stack storage and returns the descriptor's address.
pub open spec fn maker_emitted<'a>(function: FunctionValue<'a>) -> bool {
    declared_as(function, "Datatype"@) && exists|
        symbol: PointerValue<'a>,
        parent: PointerValue<'a>,
        made: PointerValue<'a>,
    |
        #![trigger field_holds(made, 0, pointer_basic(symbol)), field_holds(made, 1, pointer_basic(parent))]
        is_parameter(Value::Pointer(symbol), function, 0) && is_parameter(
            Value::Pointer(parent),
            function,
            1,
        ) && field_holds(made, 0, pointer_basic(symbol)) && field_holds(
            made,
            1,
            pointer_basic(parent),
        ) && return_built(pointer_basic(made))
}

/// Whether `name` and `parent` are the two readers of type descriptors.
pub open spec fn readers_emitted<'a>(name: FunctionValue<'a>, parent: FunctionValue<'a>) -> bool {
    reader_emitted("name"@, 0, name) && reader_emitted("supertype"@, 1, parent)
}

/// The parameter of `function` at position `n`.
pub(crate) fn get_nth_method_input<'a>(function: FunctionValue<'a>, n: u32) -> (r: Result<
    Value<'a>,
    CompileError,
>)
    requires
        plain_function(function),
    ensures
        n == u32::MAX ==> r is Err,
        r is Ok ==> is_parameter(r->Ok_0, function, n),
        r is Err ==> r->Err_0@ == ErrorView::Backend,
{
    if n == u32::MAX {
        return Err(CompileError::Backend);
    }
    match function_nth_param(function, n) {
        Some(raw) => {
            let value = value_of_basic(raw);
            assert(parameter_of(raw, function, n) && came_as(raw, value));
            Ok(value)
        },
        None => Err(CompileError::Backend),
    }
}

/// The address of field `n` of the struct that `value` points to.
pub fn get_nth_field<'a>(value: &Value<'a>, builder: &Builder<'a>, n: u32) -> (r: Result<
    PointerValue<'a>,
    CompileError,
>)
    ensures
        !(*value is Pointer) ==> r is Err && r->Err_0@ == ErrorView::TypeMismatch,
        *value is Pointer && r is Err ==> r->Err_0@ == ErrorView::Backend,
        r is Ok ==> *value is Pointer && field_address(r->Ok_0) && field_of(
            r->Ok_0,
            value->Pointer_0,
            n,
        ),
{
    match value {
        Value::Pointer(x) => accepted(builder_struct_gep(builder, *x, n, "")),
        _ => Err(CompileError::TypeMismatch),
    }
}

/// The value of field `n` of the struct that `value` points to.
pub fn load_nth_field<'a>(value: &Value<'a>, builder: &Builder<'a>, n: u32) -> (r: Result<
    Value<'a>,
    CompileError,
>)
    ensures
        !(*value is Pointer) ==> r is Err && r->Err_0@ == ErrorView::TypeMismatch,
        *value is Pointer && r is Err ==> r->Err_0@ == ErrorView::Backend,
        r is Ok ==> *value is Pointer && field_value(r->Ok_0, value->Pointer_0, n),
{
    let field = get_nth_field(value, builder, n)?;
    let raw = accepted(builder_load(builder, field, ""))?;
    let loaded = value_of_basic(raw);
    assert(field_of(field, value->Pointer_0, n) && loaded_from(raw, field) && came_as(raw, loaded));
    Ok(loaded)
}

/// Stores the pointer `val` in field `n` of the struct that `value` points
/// to. Only a pointer can be stored.
pub fn set_nth_field<'a>(value: &Value<'a>, builder: &Builder<'a>, n: u32, val: &Value<'a>) -> (r:
    Result<(), CompileError>)
    ensures
        !(*value is Pointer) || !(*val is Pointer) ==> r is Err && r->Err_0@
            == ErrorView::TypeMismatch,
        *value is Pointer && *val is Pointer && r is Err ==> r->Err_0@ == ErrorView::Backend,
        r is Ok ==> *value is Pointer && *val is Pointer && field_holds(
            value->Pointer_0,
            n,
            pointer_basic(val->Pointer_0),
        ),
{
    match val {
        Value::Pointer(x) => {
            let field = get_nth_field(value, builder, n)?;
            accepted(builder_store_pointer(builder, field, *x))
        },
        _ => Err(CompileError::TypeMismatch),
    }
}

impl<'a> FarneseInternal<'a> for Symbol {
    /// Declares the layout of a symbol; a symbol has no functions of its
    /// own.
    fn bootstrap(&self, module: &Module<'a>) -> (r: Result<(), CompileError>)
        ensures
            r is Ok,
    {
        self.create_opaque_type(module)
    }

    /// Emits the function `__DataType_Symbol`, which builds the type
    /// descriptor of symbols at run time.
    fn create_datatype(&self, module: &Module<'a>) -> (r: Result<(), CompileError>)
        ensures
            r is Err ==> layout_fault(r->Err_0@) || r->Err_0@ == ErrorView::UndefinedSymbol(
                "Any"@,
            ) || r->Err_0@ == ErrorView::UndefinedFunction("Datatype"@),
    {
        let context = module.get_context();
        let builder = module.create_builder();
        let sym = Symbol::new("Symbol");
        let datatype = module.get_struct_type("DataType")?;
        let datatype_ptr = struct_ptr_type(datatype, default_address_space());
        let params: Vec<BasicMetadataTypeEnum<'a>> = Vec::new();
        let func = pointer_fn_type(datatype_ptr, params.as_slice(), false);
        let func = module.declare("__DataType_Symbol", func, None);
        let entry = context_append_basic_block(context, func, "entry");
        builder_position_at_end(&builder, entry);
        let sym_ptr = sym.emit_ir_alloca(&builder, module)?;
        let supertype_ptr = global_as_pointer(module.get_global("Any")?);
        let mut arguments: Vec<BasicMetadataValueEnum<'a>> = Vec::new();
        arguments.push(pointer_argument(sym_ptr));
        arguments.push(pointer_argument(supertype_ptr));
        let constructor = module.get_function("Datatype")?;
        let mut expected: Vec<BasicMetadataTypeEnum<'a>> = Vec::new();
        expected.push(pointer_param(struct_ptr_type(module.get_struct_type("Symbol")?, default_address_space())));
        expected.push(pointer_param(datatype_ptr));
        let expected = pointer_fn_type(datatype_ptr, expected.as_slice(), false);
        if !same_function_type(function_type_of(constructor), expected) {
            return Err(CompileError::TypeMismatch);
        }
        let call = accepted(builder_call(&builder, constructor, arguments.as_slice(), ""))?;
        match call_result(call) {
            Some(raw) => match value_of_basic(raw) {
                Value::Pointer(made) => accepted(builder_return_pointer(&builder, made)),
                _ => Err(CompileError::TypeMismatch),
            },
            None => Err(CompileError::TypeMismatch),
        }
    }

    /// A symbol has no functions that read its fields.
    fn create_get_methods(&self, _module: &Module<'a>) -> (r: Result<(), CompileError>)
        ensures
            r is Ok,
    {
        Ok(())
    }

    /// A symbol has no function that builds it.
    fn create_new_method(&self, _module: &Module<'a>) -> (r: Result<(), CompileError>)
        ensures
            r is Ok,
    {
        Ok(())
    }

    /// Declares the layout of a symbol in the backend: a 64-bit hash and a
    /// pointer to the bytes of the name.
    fn create_opaque_type(&self, module: &Module<'a>) -> (r: Result<(), CompileError>)
        ensures
            r is Ok,
    {
        let context = module.get_context();
        let layout = context_opaque_struct_type(context, "Symbol");
        let fields = symbol_fields();
        match field_types(module, &fields, None, None) {
            Ok(types) => {
                let _ = struct_set_body(layout, types.as_slice(), false);
            },
            Err(_) => {},
        }
        Ok(())
    }
}

impl<'a> LLVMAlloca<'a> for Symbol {
    /// Emits a symbol in stack storage: the bytes of the name, closed by a
    /// zero byte, and a struct of the symbol layout that holds the hash and
    /// the address of the bytes. Returns the address of the struct.
    fn emit_ir_alloca(&self, builder: &Builder<'a>, module: &Module<'a>) -> (r: Result<
        PointerValue<'a>,
        CompileError,
    >)
        ensures
            r is Err ==> r->Err_0@ == ErrorView::UndefinedType("Symbol"@) || r->Err_0@
                == ErrorView::Backend,
            r is Ok ==> symbol_emitted(self@, self.hash_value(), r->Ok_0),
    {
        let context = module.get_context();
        let text = context_const_string(context, self.name().as_bytes(), true);
        let bytes = accepted(builder_alloca(builder, array_basic_type(text), "stack_sym"))?;
        accepted(builder_store_array(builder, bytes, text))?;
        let first = accepted(builder_pointer_cast(builder, bytes, module.i8_ptr_type(), "str_ptr"))?;
        let layout = module.get_struct_type("Symbol")?;
        let ptr = accepted(builder_alloca(builder, struct_basic_type(layout), ""))?;
        let field = accepted(builder_struct_gep(builder, ptr, 0, ""))?;
        let bits: u64 = #[verifier::truncate]
        (self.hash() as u64);
        let hash = int_const(module.i64_type(), bits, true);
        accepted(builder_store_int(builder, field, hash))?;
        let second = accepted(builder_struct_gep(builder, ptr, 1, ""))?;
        accepted(builder_store_pointer(builder, second, first))?;
        proof {
            assert(stored(bytes, array_basic(text)) && constant_bytes(text) == text_bytes(self@));
            assert(cast_of(first, bytes) && holds_text(bytes, text_bytes(self@)));
            assert(field_of(field, ptr, 0) && stored(field, int_basic(hash)));
            assert(field_of(second, ptr, 1) && stored(second, pointer_basic(first)));
            assert(field_holds(ptr, 0, int_basic(hash)) && field_holds(
                ptr,
                1,
                pointer_basic(first),
            ));
        }
        Ok(ptr)
    }
}

impl<'a> FarneseInternal<'a> for DataType {
    /// Declares the layout of type descriptors and emits the functions that
    /// build and read them.
    fn bootstrap(&self, module: &Module<'a>) -> (r: Result<(), CompileError>)
        ensures
            r is Err ==> layout_fault(r->Err_0@),
            r is Ok ==> exists|maker: FunctionValue<'a>| #[trigger] maker_emitted(maker),
            r is Ok ==> exists|name: FunctionValue<'a>, parent: FunctionValue<'a>|
                #[trigger] readers_emitted(name, parent),
    {
        self.create_opaque_type(module)?;
        self.create_new_method(module)?;
        self.create_get_methods(module)
    }

    /// The descriptor of type descriptors is built by the bootstrap itself.
    fn create_datatype(&self, _module: &Module<'a>) -> (r: Result<(), CompileError>)
        ensures
            r is Ok,
    {
        Ok(())
    }

    /// Emits the functions `name` and `supertype`, which read the two
    /// fields of a type descriptor at run time.
    fn create_get_methods(&self, module: &Module<'a>) -> (r: Result<(), CompileError>)
        ensures
            r is Err ==> layout_fault(r->Err_0@),
            r is Ok ==> exists|name: FunctionValue<'a>, parent: FunctionValue<'a>|
                #[trigger] readers_emitted(name, parent),
    {
        let context = module.get_context();
        let builder = module.create_builder();
        let symbol = module.get_struct_type("Symbol")?;
        let datatype = module.get_struct_type("DataType")?;
        let symbol_ptr_type = struct_ptr_type(symbol, default_address_space());
        let datatype_ptr_type = struct_ptr_type(datatype, default_address_space());
        let mut params: Vec<BasicMetadataTypeEnum<'a>> = Vec::new();
        params.push(pointer_param(datatype_ptr_type));

        let func = pointer_fn_type(symbol_ptr_type, params.as_slice(), false);
        let reader = module.declare("name", func, None);
        let entry = context_append_basic_block(context, reader, "entry");
        builder_position_at_end(&builder, entry);
        let struct_ptr = get_nth_method_input(reader, 0)?;
        match load_nth_field(&struct_ptr, &builder, 0)? {
            Value::Pointer(field) => {
                accepted(builder_return_pointer(&builder, field))?;
                assert(field_value(Value::Pointer(field), struct_ptr->Pointer_0, 0));
                assert(reader_emitted("name"@, 0, reader));
            },
            _ => {
                return Err(CompileError::TypeMismatch);
            },
        }

        let func = pointer_fn_type(datatype_ptr_type, params.as_slice(), false);
        let second = module.declare("supertype", func, None);
        let entry = context_append_basic_block(context, second, "entry");
        builder_position_at_end(&builder, entry);
        let struct_ptr = get_nth_method_input(second, 0)?;
        match load_nth_field(&struct_ptr, &builder, 1)? {
            Value::Pointer(field) => {
                accepted(builder_return_pointer(&builder, field))?;
                assert(field_value(Value::Pointer(field), struct_ptr->Pointer_0, 1));
                assert(reader_emitted("supertype"@, 1, second));
                assert(readers_emitted(reader, second));
                Ok(())
            },
            _ => Err(CompileError::TypeMismatch),
        }
    }

    /// Emits the function `Datatype`, which builds a type descriptor from a
    /// symbol and a supertype at run time.
    fn create_new_method(&self, module: &Module<'a>) -> (r: Result<(), CompileError>)
        ensures
            r is Err ==> layout_fault(r->Err_0@),
            r is Ok ==> exists|maker: FunctionValue<'a>| #[trigger] maker_emitted(maker),
    {
        let symbol = module.get_struct_type("Symbol")?;
        let datatype = module.get_struct_type("DataType")?;
        let symbol_ptr_type = struct_ptr_type(symbol, default_address_space());
        let datatype_ptr_type = struct_ptr_type(datatype, default_address_space());
        let context = module.get_context();
        let builder = module.create_builder();
        let mut params: Vec<BasicMetadataTypeEnum<'a>> = Vec::new();
        params.push(pointer_param(symbol_ptr_type));
        params.push(pointer_param(datatype_ptr_type));
        let func = pointer_fn_type(datatype_ptr_type, params.as_slice(), false);
        let func = module.declare("Datatype", func, None);
        let entry = context_append_basic_block(context, func, "entry");
        builder_position_at_end(&builder, entry);
        let sym_ptr = get_nth_method_input(func, 0)?;
        let supertype_ptr = get_nth_method_input(func, 1)?;
        let made = accepted(builder_alloca(&builder, struct_basic_type(datatype), ""))?;
        let target = Value::Pointer(made);
        set_nth_field(&target, &builder, 0, &sym_ptr)?;
        set_nth_field(&target, &builder, 1, &supertype_ptr)?;
        accepted(builder_return_pointer(&builder, made))?;
        proof {
            assert(field_holds(made, 0, pointer_basic(sym_ptr->Pointer_0)) && field_holds(
                made,
                1,
                pointer_basic(supertype_ptr->Pointer_0),
            ));
            assert(maker_emitted(func));
        }
        Ok(())
    }

    /// Declares the layout of a type descriptor in the backend: a pointer
    /// to the name's symbol and a pointer to the supertype's descriptor.
    fn create_opaque_type(&self, module: &Module<'a>) -> (r: Result<(), CompileError>)
        ensures
            r is Err ==> r->Err_0@ == ErrorView::UndefinedType("Symbol"@),
    {
        let context = module.get_context();
        let sym_type = module.get_struct_type("Symbol")?;
        let layout = context_opaque_struct_type(context, "DataType");
        let fields = descriptor_fields();
        match field_types(module, &fields, Some(sym_type), Some(layout)) {
            Ok(types) => {
                let _ = struct_set_body(layout, types.as_slice(), false);
            },
            Err(_) => {},
        }
        Ok(())
    }
}

impl<'a> LLVMAlloca<'a> for DataType {
    /// Emits this type's descriptor in stack storage, after declaring the
    /// global that stands for the type. The descriptor points to a fresh
    /// symbol for the name and, as its supertype, to itself. Returns the
    /// address of the descriptor.
    fn emit_ir_alloca(&self, builder: &Builder<'a>, module: &Module<'a>) -> (r: Result<
        PointerValue<'a>,
        CompileError,
    >)
        ensures
            r is Err ==> r->Err_0@ == ErrorView::UndefinedType("DataType"@) || r->Err_0@
                == ErrorView::UndefinedSymbol(self@.supertype) || r->Err_0@
                == ErrorView::UndefinedType("Symbol"@) || r->Err_0@ == ErrorView::Backend,
            r is Ok ==> descriptor_emitted(self@.name, r->Ok_0),
    {
        let layout = module.get_struct_type("DataType")?;
        let _ = module.add_global(layout, None, self.name().name());
        let _ = module.get_global(self.supertype().name())?;
        let ptr = accepted(builder_alloca(builder, struct_basic_type(layout), ""))?;
        let symbol = self.name();
        let hash = symbol.hash();
        let sym_ptr = symbol.emit_ir_alloca(builder, module)?;
        let target = Value::Pointer(ptr);
        set_nth_field(&target, builder, 0, &Value::Pointer(sym_ptr))?;
        set_nth_field(&target, builder, 1, &Value::Pointer(ptr))?;
        proof {
            assert(symbol@ == self@.name);
            assert(hash == name_hash(self@.name));
            assert(symbol_emitted(self@.name, name_hash(self@.name), sym_ptr));
            assert(field_holds(ptr, 0, pointer_basic(sym_ptr)) && field_holds(
                ptr,
                1,
                pointer_basic(ptr),
            ));
        }
        Ok(ptr)
    }
}

impl<'a> LLVMType<'a> for DataType {
    /// Declares the global that stands for this type in the backend.
    fn emit_ir_type(&self, module: &Module<'a>) -> (r: Result<(), CompileError>)
        ensures
            r is Err ==> r->Err_0@ == ErrorView::UndefinedType("DataType"@),
    {
        let layout = module.get_struct_type("DataType")?;
        let _ = module.add_global(layout, None, self.name().name());
        Ok(())
    }
}

} // verus!
