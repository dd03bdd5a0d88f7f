use crate::ast::Primitive;
use crate::backend::array_argument;
use crate::backend::array_basic_type;
use crate::backend::builder_alloca;
use crate::backend::builder_bitcast_to_float;
use crate::backend::builder_call;
use crate::backend::builder_float_ext;
use crate::backend::builder_int_z_extend;
use crate::backend::builder_load;
use crate::backend::builder_pointer_cast;
use crate::backend::builder_store_array;
use crate::backend::builder_store_float;
use crate::backend::builder_store_int;
use crate::backend::builder_struct_gep;
use crate::backend::call_result;
use crate::backend::context_const_string;
use crate::backend::context_f32_type;
use crate::backend::context_f64_type;
use crate::backend::context_i16_type;
use crate::backend::context_i32_type;
use crate::backend::context_i64_type;
use crate::backend::context_i8_type;
use crate::backend::float_argument;
use crate::backend::array_basic;
use crate::backend::as_meta;
use crate::backend::basic_argument;
use crate::backend::call_made;
use crate::backend::came_as;
use crate::backend::cast_of;
use crate::backend::constant_bytes;
use crate::backend::emitted_call;
use crate::backend::field_of;
use crate::backend::field_value;
use crate::backend::float_basic;
use crate::backend::float_basic_type;
use crate::backend::float_extended;
use crate::backend::found_as;
use crate::backend::int_basic;
use crate::backend::int_extended;
use crate::backend::loaded_from;
use crate::backend::pointer_basic;
use crate::backend::returned_by;
use crate::backend::stored;
use crate::backend::type_of_function;
use crate::backend::yields;
use crate::module::output_type;
use inkwell::values::ArrayValue;
use inkwell::values::FunctionValue;
use crate::backend::float_kind_name;
use crate::backend::float_pattern;
use crate::backend::float_type_name;
use crate::backend::int_argument;
use crate::backend::int_bit_width;
use crate::backend::int_const;
use crate::backend::int_constant;
use crate::backend::int_value_width;
use crate::backend::low_bits;
use crate::backend::int_field;
use crate::backend::default_address_space;
use crate::backend::int_type_width;
use crate::backend::pointer_argument;
use crate::backend::pointer_type_of;
use crate::backend::same_pointer_type;
use crate::backend::struct_ptr_type;
use crate::backend::value_of_basic;
use crate::backend::Value;
use crate::datatype::DataType;
use crate::datatype::DataTypeView;
use crate::emit::LLVMAlloca;
use crate::emit::LLVMPrintf;
use crate::emit::LLVMValue;
use crate::error::CompileError;
use crate::error::ErrorView;
use crate::module::Module;
use crate::symbol::same_text;
use inkwell::builder::Builder;
use inkwell::builder::BuilderError;
use inkwell::types::FloatType;
use inkwell::values::FloatValue;
use inkwell::values::BasicMetadataValueEnum;
use inkwell::values::IntValue;
use inkwell::values::PointerValue;
use vstd::prelude::*;

verus! {

/// The description of a primitive type with the given name and supertype.
pub open spec fn primitive_type(name: Seq<char>, supertype: Seq<char>) -> DataTypeView {
    DataTypeView {
        name,
        supertype,
        is_abstract: false,
        is_mutable: false,
        is_primitive: true,
        field_names: Seq::empty(),
        field_types: Seq::empty(),
    }
}

/// The table from a literal's kind to its type.
pub open spec fn literal_datatype(literal: Primitive) -> DataTypeView {
    match literal {
        Primitive::Char(_) => primitive_type("Char"@, "Any"@),
        Primitive::Float32(_) => primitive_type("Float32"@, "AbstractFloat"@),
        Primitive::Float64(_) => primitive_type("Float64"@, "AbstractFloat"@),
        Primitive::Int16(_) => primitive_type("Int16"@, "Signed"@),
        Primitive::Int32(_) => primitive_type("Int32"@, "Signed"@),
        Primitive::Int64(_) => primitive_type("Int64"@, "Signed"@),
        Primitive::String(_) => primitive_type("String"@, "AbstractString"@),
    }
}

/// The width in bits of the constant that a literal becomes; for a float,
/// of its bit pattern; for text, of one unit.
pub open spec fn literal_width(literal: Primitive) -> u32 {
    match literal {
        Primitive::Char(_) | Primitive::String(_) => 8,
        Primitive::Int16(_) => 16,
        Primitive::Float32(_) | Primitive::Int32(_) => 32,
        Primitive::Float64(_) | Primitive::Int64(_) => 64,
    }
}

/// The bits of the constant that a number or a character becomes: the
/// code of a character, the bit pattern of a float, and the two's
/// complement of an integer, cut to the literal's width.
pub open spec fn literal_bits(literal: Primitive) -> u64 {
    match literal {
        Primitive::Char(c) => low_bits(c as u32 as u64, 8),
        Primitive::Float32(bits) => low_bits(bits as u64, 32),
        Primitive::Float64(bits) => bits,
        Primitive::Int16(x) => low_bits(x as u64, 16),
        Primitive::Int32(x) => low_bits(x as u64, 32),
        Primitive::Int64(x) => x as u64,
        Primitive::String(_) => 0,
    }
}

/// Whether a literal becomes an integer constant: a character or an
/// integer.
pub open spec fn integer_literal(literal: Primitive) -> bool {
    literal is Char || literal is Int16 || literal is Int32 || literal is Int64
}

/// How the output routine is told to print a value.
#[derive(Clone, Copy, Debug, PartialEq, Eq, Structural)]
pub enum PrintFormat {
    /// One character: `%c`.
    Character,
    /// A decimal fraction with eight digits: `%.8f`.
    Decimal,
    /// A signed integer: `%lld`.
    Integer,
    /// Text that ends in a zero byte: `%s`.
    Text,
}

/// The bytes of a format, closing zero byte included.
pub open spec fn format_bytes(format: PrintFormat) -> Seq<u8> {
    match format {
        PrintFormat::Character => seq![0x25u8, 0x63u8, 0u8],
        PrintFormat::Decimal => seq![0x25u8, 0x2eu8, 0x38u8, 0x66u8, 0u8],
        PrintFormat::Integer => seq![0x25u8, 0x6cu8, 0x6cu8, 0x64u8, 0u8],
        PrintFormat::Text => seq![0x25u8, 0x73u8, 0u8],
    }
}

/// The format that a literal is printed with.
pub open spec fn literal_format(literal: Primitive) -> PrintFormat {
    match literal {
        Primitive::Char(_) => PrintFormat::Character,
        Primitive::Float32(_) | Primitive::Float64(_) => PrintFormat::Decimal,
        Primitive::Int16(_) | Primitive::Int32(_) | Primitive::Int64(_) => PrintFormat::Integer,
        Primitive::String(_) => PrintFormat::Text,
    }
}

/// The format that a value of the type called `name` is printed with.
pub open spec fn format_of(name: Seq<char>) -> Option<PrintFormat> {
    if name == "Float32"@ || name == "Float64"@ {
        Some(PrintFormat::Decimal)
    } else if name == "Int32"@ || name == "Int64"@ {
        Some(PrintFormat::Integer)
    } else if name == "String"@ || name == "Symbol"@ {
        Some(PrintFormat::Text)
    } else {
        None
    }
}

impl PrintFormat {
    /// The bytes of the format, closing zero byte included.
    pub fn bytes(&self) -> (bytes: Vec<u8>)
        ensures
            bytes@ == format_bytes(*self),
    {
        let bytes = match self {
            PrintFormat::Character => vec![0x25u8, 0x63u8, 0u8],
            PrintFormat::Decimal => vec![0x25u8, 0x2eu8, 0x38u8, 0x66u8, 0u8],
            PrintFormat::Integer => vec![0x25u8, 0x6cu8, 0x6cu8, 0x64u8, 0u8],
            PrintFormat::Text => vec![0x25u8, 0x73u8, 0u8],
        };
        assert(bytes@ =~= format_bytes(*self));
        bytes
    }

    /// The format for a value of the given type, chosen by the type's name.
    pub fn for_datatype(datatype: &DataType) -> (r: Result<PrintFormat, CompileError>)
        ensures
            match format_of(datatype@.name) {
                Some(format) => r == Ok::<PrintFormat, CompileError>(format),
                None => r is Err && r->Err_0@ == ErrorView::UnsupportedPrimitive(
                    datatype@.name,
                ),
            },
    {
        let name = datatype.name().name();
        if same_text(name, "Float32") || same_text(name, "Float64") {
            Ok(PrintFormat::Decimal)
        } else if same_text(name, "Int32") || same_text(name, "Int64") {
            Ok(PrintFormat::Integer)
        } else if same_text(name, "String") || same_text(name, "Symbol") {
            Ok(PrintFormat::Text)
        } else {
            Err(CompileError::UnsupportedPrimitive(name.to_owned()))
        }
    }
}

/// The lowest `width` bits of `value`, for a width of 8, 16 or 32.
fn cut_to(value: u64, width: u32) -> (cut: u64)
    requires
        width == 8 || width == 16 || width == 32,
    ensures
        cut == low_bits(value, width),
{
    proof {
        vstd::arithmetic::power2::lemma2_to64();
    }
    if width == 8 {
        value % 0x100
    } else if width == 16 {
        value % 0x1_0000
    } else {
        value % 0x1_0000_0000
    }
}

/// What the backend answered, with its refusal as this library's error.
pub fn accepted<T>(answer: Result<T, BuilderError>) -> (r: Result<T, CompileError>)
    ensures
        answer is Ok ==> r == Ok::<T, CompileError>(answer->Ok_0),
        answer is Err ==> r is Err && r->Err_0@ == ErrorView::Backend,
{
    match answer {
        Ok(x) => Ok(x),
        Err(_) => Err(CompileError::Backend),
    }
}

/// A value as an argument of a call.
pub fn as_argument<'a>(value: &Value<'a>) -> (argument: BasicMetadataValueEnum<'a>)
    ensures
        argument == as_meta(*value),
{
    match value {
        Value::Int(x) => int_argument(*x),
        Value::Float(x) => float_argument(*x),
        Value::Pointer(x) => pointer_argument(*x),
        Value::Other(x) => *x,
    }
}

/// Whether a float is the one with the given bit pattern: the backend made
/// it of the integer constant of that width with those bits.
pub open spec fn carries(value: FloatValue, width: u32, bits: u64) -> bool {
    exists|pattern: IntValue|
        #[trigger] float_pattern(value, pattern) && int_value_width(pattern) == width
            && int_constant(pattern) == Some(bits)
}

/// The float constant of type `ty` with the bits of `pattern`.
fn float_from_bits<'a>(builder: &Builder<'a>, pattern: IntValue<'a>, ty: FloatType<'a>) -> (r: Result<
    Value<'a>,
    CompileError,
>)
    requires
        float_kind_name(ty) == "float"@ && int_value_width(pattern) == 32 || float_kind_name(ty)
            == "double"@ && int_value_width(pattern) == 64,
    ensures
        r is Ok ==> r->Ok_0 is Float && float_pattern(r->Ok_0->Float_0, pattern)
            && float_type_name(r->Ok_0->Float_0) == float_kind_name(ty),
        r is Err ==> r->Err_0@ == ErrorView::Backend,
{
    match accepted(builder_bitcast_to_float(builder, pattern, ty, ""))? {
        Some(x) => Ok(Value::Float(x)),
        None => Err(CompileError::Backend),
    }
}

/// The bytes of a text, closed by a zero byte.
pub open spec fn text_bytes(text: Seq<char>) -> Seq<u8> {
    vstd::utf8::encode_utf8(text).push(0u8)
}

/// Whether `slot` is stack storage into which a constant byte array with
/// the given bytes was stored.
pub open spec fn holds_text<'a>(slot: PointerValue<'a>, bytes: Seq<u8>) -> bool {
    exists|text: ArrayValue<'a>|
        #[trigger] stored(slot, array_basic(text)) && constant_bytes(text) == bytes
}

/// Whether `pointer` is the address, seen as a pointer to bytes, of stack
/// storage that holds the given bytes.
pub open spec fn points_to_text<'a>(pointer: PointerValue<'a>, bytes: Seq<u8>) -> bool {
    exists|slot: PointerValue<'a>| #[trigger] cast_of(pointer, slot) && holds_text(slot, bytes)
}

/// Whether `result` is what a call of the output routine returned, on
/// `format` and `argument`, in this order.
pub open spec fn printf_called<'a>(
    format: PointerValue<'a>,
    argument: BasicMetadataValueEnum<'a>,
    result: Value<'a>,
) -> bool {
    exists|routine: FunctionValue<'a>|
        #![trigger found_as(routine, "printf"@)]
        found_as(routine, "printf"@) && output_type(type_of_function(routine)) && emitted_call(
            routine,
            seq![basic_argument(pointer_basic(format)), argument],
            result,
        )
}

/// Whether `result` is what a call of the output routine returned, on a
/// format with the given bytes and on `argument`.
pub open spec fn printed_with<'a>(bytes: Seq<u8>, argument: BasicMetadataValueEnum<'a>, result: Value<'a>) -> bool {
    exists|format: PointerValue<'a>|
        #![trigger printf_called(format, argument, result)]
        points_to_text(format, bytes) && printf_called(format, argument, result)
}

/// Whether `slot` is stack storage into which the constant that a literal
/// becomes was stored.
pub open spec fn stored_literal<'a>(literal: Primitive, slot: PointerValue<'a>) -> bool {
    match literal {
        Primitive::String(text) => holds_text(slot, text_bytes(text@)),
        Primitive::Float32(_) | Primitive::Float64(_) => exists|constant: FloatValue<'a>|
            #![trigger float_basic(constant)]
            stored(slot, float_basic(constant)) && literal_constant(
                literal,
                Value::Float(constant),
            ),
        _ => exists|constant: IntValue<'a>|
            #![trigger int_basic(constant)]
            stored(slot, int_basic(constant)) && literal_constant(literal, Value::Int(constant)),
    }
}

/// The constant that a literal becomes: for an integer or a character, the
/// integer of the literal's width with the literal's bits; for a float,
/// the float of the literal's type with the literal's bit pattern; for
/// text, the constant byte array of the text's bytes, closed by a zero
/// byte.
pub open spec fn literal_constant<'a>(literal: Primitive, value: Value<'a>) -> bool {
    match literal {
        Primitive::Float32(_) => value is Float && float_type_name(value->Float_0) == "float"@
            && carries(value->Float_0, literal_width(literal), literal_bits(literal)),
        Primitive::Float64(_) => value is Float && float_type_name(value->Float_0) == "double"@
            && carries(value->Float_0, literal_width(literal), literal_bits(literal)),
        Primitive::String(text) => exists|array: ArrayValue<'a>|
            #![trigger constant_bytes(array)]
            value == Value::Other(basic_argument(array_basic(array))) && constant_bytes(array)
                == text_bytes(text@),
        _ => value is Int && int_value_width(value->Int_0) == literal_width(literal)
            && int_constant(value->Int_0) == Some(literal_bits(literal)),
    }
}

/// Whether `argument` is the literal as it is handed to the output
/// routine: text by the address of its bytes in stack storage, a 16-bit
/// integer widened to 32 bits, a 32-bit float widened to 64 bits, any other
/// literal as its constant.
pub open spec fn passed<'a>(literal: Primitive, argument: BasicMetadataValueEnum<'a>) -> bool {
    match passing_of(literal) {
        Passing::Address => exists|slot: PointerValue<'a>|
            #![trigger pointer_basic(slot)]
            argument == basic_argument(pointer_basic(slot)) && literal is String && holds_text(
                slot,
                text_bytes(literal->String_0@),
            ),
        Passing::WidenedInteger => exists|narrow: IntValue<'a>, wide: IntValue<'a>|
            #![trigger int_extended(wide, narrow)]
            int_extended(wide, narrow) && literal_constant(literal, Value::Int(narrow))
                && int_value_width(wide) == 32 && argument == basic_argument(int_basic(wide)),
        Passing::WidenedFloat => exists|narrow: FloatValue<'a>, wide: FloatValue<'a>|
            #![trigger float_extended(wide, narrow)]
            float_extended(wide, narrow) && literal_constant(literal, Value::Float(narrow))
                && float_type_name(wide) == "double"@ && argument == basic_argument(
                float_basic(wide),
            ),
        Passing::Constant => exists|constant: Value<'a>|
            #![trigger as_meta(constant)]
            literal_constant(literal, constant) && argument == as_meta(constant),
    }
}

/// Whether `result` is what a call of the output routine returned that
/// prints a literal: on the format of the literal's kind and on the literal
/// as `passed` says.
pub open spec fn printed_literal<'a>(literal: Primitive, result: Value<'a>) -> bool {
    exists|argument: BasicMetadataValueEnum<'a>|
        #![trigger passed(literal, argument)]
        passed(literal, argument) && printed_with(
            format_bytes(literal_format(literal)),
            argument,
            result,
        )
}

/// Whether `argument` is a value of the type called `name` as it is handed
/// to the output routine: of a symbol, the pointer loaded from its second
/// field; any other value as it is.
pub open spec fn handed_over<'a>(value: Value<'a>, name: Seq<char>, argument: BasicMetadataValueEnum<'a>) -> bool {
    if name == "Symbol"@ {
        value is Pointer && exists|text: PointerValue<'a>|
            #![trigger pointer_basic(text)]
            field_value(Value::Pointer(text), value->Pointer_0, 1) && argument == basic_argument(
                pointer_basic(text),
            )
    } else {
        argument == as_meta(value)
    }
}

/// Whether `result` is what a call of the output routine returned that
/// prints `value` as a value of the type called `name`: on the format that
/// the name selects and on the value as `handed_over` says.
pub open spec fn prints<'a>(value: Value<'a>, name: Seq<char>, result: Value<'a>) -> bool {
    format_of(name) is Some && exists|argument: BasicMetadataValueEnum<'a>|
        #![trigger handed_over(value, name, argument)]
        handed_over(value, name, argument) && printed_with(
            format_bytes(format_of(name).unwrap()),
            argument,
            result,
        )
}

/// Puts the bytes of `format` into stack storage and returns their address
/// as a pointer to bytes.
pub fn emit_format<'a>(format: PrintFormat, builder: &Builder<'a>, module: &Module<'a>) -> (r: Result<
    PointerValue<'a>,
    CompileError,
>)
    ensures
        r is Ok ==> points_to_text(r->Ok_0, format_bytes(format)),
        r is Err ==> r->Err_0@ == ErrorView::Backend,
{
    let context = module.get_context();
    let bytes = format.bytes();
    let text = context_const_string(context, bytes.as_slice(), false);
    let slot = accepted(builder_alloca(builder, array_basic_type(text), ""))?;
    accepted(builder_store_array(builder, slot, text))?;
    let pointer = accepted(builder_pointer_cast(builder, slot, module.i8_ptr_type(), ""))?;
    assert(stored(slot, array_basic(text)) && constant_bytes(text) == format_bytes(format));
    assert(cast_of(pointer, slot) && holds_text(slot, format_bytes(format)));
    Ok(pointer)
}

/// Emits the call of the output routine on a format and one argument, and
/// returns what the call returns.
pub fn emit_printf_call<'a>(
    format: PointerValue<'a>,
    argument: BasicMetadataValueEnum<'a>,
    builder: &Builder<'a>,
    module: &Module<'a>,
) -> (r: Result<Value<'a>, CompileError>)
    ensures
        r is Ok ==> printf_called(format, argument, r->Ok_0),
        r is Err ==> r->Err_0@ == ErrorView::Backend || r->Err_0@ == ErrorView::UndefinedFunction(
            "printf"@,
        ) || r->Err_0@ == ErrorView::TypeMismatch,
{
    let printf = module.get_output_routine()?;
    let mut arguments: Vec<BasicMetadataValueEnum<'a>> = Vec::new();
    arguments.push(pointer_argument(format));
    arguments.push(argument);
    assert(arguments@ =~= seq![basic_argument(pointer_basic(format)), argument]);
    let call = accepted(builder_call(builder, printf, arguments.as_slice(), ""))?;
    match call_result(call) {
        Some(raw) => {
            let value = value_of_basic(raw);
            assert(returned_by(raw, call) && came_as(raw, value));
            assert(call_made(call, printf, arguments@) && yields(value, call));
            assert(found_as(printf, "printf"@));
            Ok(value)
        },
        None => Err(CompileError::TypeMismatch),
    }
}

impl<'a> LLVMPrintf<'a> for (Value<'a>, DataType) {
    /// Emits a call of the output routine that prints a value of the given
    /// type, with the format that the type's name selects. Of a symbol, the
    /// text behind its second field is printed; a pointer of another type
    /// than that of pointers to the symbol layout is refused as a symbol.
    /// The result is what the call returns.
    fn emit_ir_printf(&self, builder: &Builder<'a>, module: &Module<'a>) -> (r: Result<
        Value<'a>,
        CompileError,
    >)
        ensures
            format_of(self.1@.name) is None ==> r is Err && r->Err_0@
                == ErrorView::UnsupportedPrimitive(self.1@.name),
            r is Err ==> r->Err_0@ == ErrorView::UnsupportedPrimitive(self.1@.name) || r->Err_0@
                == ErrorView::Backend || r->Err_0@ == ErrorView::UndefinedFunction("printf"@)
                || r->Err_0@ == ErrorView::TypeMismatch || r->Err_0@ == ErrorView::UndefinedType(
                "Symbol"@,
            ),
            format_of(self.1@.name) is Some && self.1@.name == "Symbol"@ && !(self.0 is Pointer)
                ==> r is Err && r->Err_0@ == ErrorView::TypeMismatch,
            r is Ok ==> prints(self.0, self.1@.name, r->Ok_0),
    {
        let kind = PrintFormat::for_datatype(&self.1)?;
        let is_symbol = same_text(self.1.name().name(), "Symbol");
        if is_symbol {
            match self.0 {
                Value::Pointer(_) => {},
                _ => {
                    return Err(CompileError::TypeMismatch);
                },
            }
        }
        let format = emit_format(kind, builder, module)?;
        let argument = if is_symbol {
            match self.0 {
                Value::Pointer(symbol) => {
                    let layout = struct_ptr_type(
                        module.get_struct_type("Symbol")?,
                        default_address_space(),
                    );
                    if !same_pointer_type(pointer_type_of(symbol), layout) {
                        return Err(CompileError::TypeMismatch);
                    }
                    let field = accepted(builder_struct_gep(builder, symbol, 1, ""))?;
                    let raw = accepted(builder_load(builder, field, ""))?;
                    match value_of_basic(raw) {
                        Value::Pointer(text) => {
                            assert(field_of(field, symbol, 1) && loaded_from(raw, field)
                                && came_as(raw, Value::Pointer(text)));
                            assert(field_value(Value::Pointer(text), symbol, 1));
                            pointer_argument(text)
                        },
                        _ => {
                            return Err(CompileError::TypeMismatch);
                        },
                    }
                },
                _ => {
                    return Err(CompileError::TypeMismatch);
                },
            }
        } else {
            as_argument(&self.0)
        };
        assert(handed_over(self.0, self.1@.name, argument));
        let r = emit_printf_call(format, argument, builder, module);
        proof {
            if r is Ok {
                assert(printf_called(format, argument, r->Ok_0));
                assert(printed_with(format_bytes(kind), argument, r->Ok_0));
            }
        }
        r
    }
}

impl From<char> for Primitive {
    fn from(value: char) -> (literal: Primitive) {
        Primitive::Char(value)
    }
}

impl vstd::std_specs::convert::FromSpecImpl<char> for Primitive {
    open spec fn obeys_from_spec() -> bool {
        true
    }

    open spec fn from_spec(value: char) -> Primitive {
        Primitive::Char(value)
    }
}

impl From<i16> for Primitive {
    fn from(value: i16) -> (literal: Primitive) {
        Primitive::Int16(value)
    }
}

impl vstd::std_specs::convert::FromSpecImpl<i16> for Primitive {
    open spec fn obeys_from_spec() -> bool {
        true
    }

    open spec fn from_spec(value: i16) -> Primitive {
        Primitive::Int16(value)
    }
}

impl From<i32> for Primitive {
    fn from(value: i32) -> (literal: Primitive) {
        Primitive::Int32(value)
    }
}

impl vstd::std_specs::convert::FromSpecImpl<i32> for Primitive {
    open spec fn obeys_from_spec() -> bool {
        true
    }

    open spec fn from_spec(value: i32) -> Primitive {
        Primitive::Int32(value)
    }
}

impl From<i64> for Primitive {
    fn from(value: i64) -> (literal: Primitive) {
        Primitive::Int64(value)
    }
}

impl vstd::std_specs::convert::FromSpecImpl<i64> for Primitive {
    open spec fn obeys_from_spec() -> bool {
        true
    }

    open spec fn from_spec(value: i64) -> Primitive {
        Primitive::Int64(value)
    }
}

impl From<String> for Primitive {
    fn from(value: String) -> (literal: Primitive) {
        Primitive::String(value)
    }
}

impl vstd::std_specs::convert::FromSpecImpl<String> for Primitive {
    open spec fn obeys_from_spec() -> bool {
        true
    }

    open spec fn from_spec(value: String) -> Primitive {
        Primitive::String(value)
    }
}

/// An integer constant of the given width with the lowest bits of `bits`.
/// The backend has integer types of 8, 16, 32 and 64 bits for it.
pub fn int_constant_of<'a>(module: &Module<'a>, width: u32, bits: u64) -> (r: Option<IntValue<'a>>)
    ensures
        r is Some <==> width == 8 || width == 16 || width == 32 || width == 64,
        r is Some ==> int_value_width(r->0) == width && int_constant(r->0) == Some(
            low_bits(bits, width),
        ),
{
    let context = module.get_context();
    let ty = if width == 8 {
        context_i8_type(context)
    } else if width == 16 {
        context_i16_type(context)
    } else if width == 32 {
        context_i32_type(context)
    } else if width == 64 {
        context_i64_type(context)
    } else {
        return None;
    };
    Some(int_const(ty, bits, false))
}

impl<'a> LLVMValue<'a> for Primitive {
    /// The literal as a constant of the backend. An integer or a character
    /// is the integer constant of the literal's width with the literal's
    /// bits; a float is the float constant with the literal's bit pattern;
    /// text is a byte array that ends in a zero byte. Only a float needs the
    /// builder, to reinterpret the bits.
    fn emit_ir_value(&self, builder: &Builder<'a>, module: &Module<'a>) -> (r: Result<
        Value<'a>,
        CompileError,
    >)
        ensures
            r is Err ==> r->Err_0@ == ErrorView::Backend,
            !(*self is Float32 || *self is Float64) ==> r is Ok,
            r is Ok ==> literal_constant(*self, r->Ok_0),
    {
        let context = module.get_context();
        let (width, bits) = self.constant_parts();
        match self {
            Primitive::Float32(original) => {
                proof {
                    lemma_low_bits_twice(*original as u64, 32);
                }
                let pattern = int_const(context_i32_type(context), bits, false);
                float_from_bits(builder, pattern, context_f32_type(context))
            },
            Primitive::Float64(_) => {
                let pattern = int_const(context_i64_type(context), bits, false);
                float_from_bits(builder, pattern, context_f64_type(context))
            },
            Primitive::String(text) => {
                let array = context_const_string(context, text.as_str().as_bytes(), true);
                assert(constant_bytes(array) == text_bytes(text@));
                Ok(Value::Other(array_argument(array)))
            },
            _ => match int_constant_of(module, width, bits) {
                Some(constant) => {
                    proof {
                        match *self {
                            Primitive::Char(c) => lemma_low_bits_twice(c as u32 as u64, 8),
                            Primitive::Int16(x) => lemma_low_bits_twice(x as u64, 16),
                            Primitive::Int32(x) => lemma_low_bits_twice(x as u64, 32),
                            _ => {},
                        }
                    }
                    Ok(Value::Int(constant))
                },
                None => Err(CompileError::Backend),
            },
        }
    }
}

/// Cutting to a width twice is cutting once.
pub proof fn lemma_low_bits_twice(value: u64, width: u32)
    ensures
        low_bits(low_bits(value, width), width) == low_bits(value, width),
{
    if width < 64 {
        let m = vstd::arithmetic::power2::pow2(width as nat);
        vstd::arithmetic::power2::lemma_pow2_pos(width as nat);
        vstd::arithmetic::power2::lemma_pow2_strictly_increases(width as nat, 64);
        vstd::arithmetic::power2::lemma2_to64();
        vstd::arithmetic::div_mod::lemma_mod_twice(value as int, m as int);
    }
}

impl<'a> LLVMAlloca<'a> for Primitive {
    /// The literal in stack storage: the address of a slot into which the
    /// constant that the literal becomes was stored.
    fn emit_ir_alloca(&self, builder: &Builder<'a>, module: &Module<'a>) -> (r: Result<
        PointerValue<'a>,
        CompileError,
    >)
        ensures
            r is Err ==> r->Err_0@ == ErrorView::Backend,
            r is Ok ==> stored_literal(*self, r->Ok_0),
    {
        let context = module.get_context();
        match self {
            Primitive::String(text) => {
                let array = context_const_string(context, text.as_str().as_bytes(), true);
                let slot = accepted(builder_alloca(builder, array_basic_type(array), ""))?;
                accepted(builder_store_array(builder, slot, array))?;
                assert(stored(slot, array_basic(array)) && constant_bytes(array) == text_bytes(
                    text@,
                ));
                Ok(slot)
            },
            Primitive::Float32(_) | Primitive::Float64(_) => {
                let ty = match self {
                    Primitive::Float32(_) => context_f32_type(context),
                    _ => context_f64_type(context),
                };
                match self.emit_ir_value(builder, module)? {
                    Value::Float(x) => {
                        let slot = accepted(builder_alloca(builder, float_basic_type(ty), ""))?;
                        accepted(builder_store_float(builder, slot, x))?;
                        Ok(slot)
                    },
                    _ => Err(CompileError::Backend),
                }
            },
            _ => {
                let ty = match self {
                    Primitive::Char(_) => context_i8_type(context),
                    Primitive::Int16(_) => context_i16_type(context),
                    Primitive::Int32(_) => context_i32_type(context),
                    _ => context_i64_type(context),
                };
                match self.emit_ir_value(builder, module)? {
                    Value::Int(x) => {
                        let slot = accepted(builder_alloca(builder, int_field(ty), ""))?;
                        accepted(builder_store_int(builder, slot, x))?;
                        Ok(slot)
                    },
                    _ => Err(CompileError::Backend),
                }
            },
        }
    }
}

/// How a literal is handed to the output routine, which takes integers of
/// at least 32 bits and floats of 64.
#[derive(Clone, Copy, Debug, PartialEq, Eq, Structural)]
pub enum Passing {
    /// By the address of its bytes.
    Address,
    /// As an integer widened to 32 bits.
    WidenedInteger,
    /// As a float widened to 64 bits.
    WidenedFloat,
    /// As the constant itself.
    Constant,
}

/// How each kind of literal is handed to the output routine: text by its
/// address, a 16-bit integer widened to 32 bits, a 32-bit float widened to
/// 64 bits, any other literal as its constant.
pub open spec fn passing_of(literal: Primitive) -> Passing {
    match literal {
        Primitive::String(_) => Passing::Address,
        Primitive::Int16(_) => Passing::WidenedInteger,
        Primitive::Float32(_) => Passing::WidenedFloat,
        _ => Passing::Constant,
    }
}

/// An integer of less than 32 bits, widened to 32 bits for the output
/// routine. Any other value is refused.
pub fn widened_integer<'a>(builder: &Builder<'a>, module: &Module<'a>, value: Value<'a>) -> (r: Result<
    IntValue<'a>,
    CompileError,
>)
    ensures
        r is Ok ==> value is Int && int_value_width(value->Int_0) < 32 && int_value_width(r->Ok_0)
            == 32 && int_extended(r->Ok_0, value->Int_0),
        !(value is Int && int_value_width(value->Int_0) < 32) ==> r is Err,
        r is Err ==> r->Err_0@ == ErrorView::Backend,
{
    match value {
        Value::Int(x) => {
            if int_bit_width(x) >= 32 {
                return Err(CompileError::Backend);
            }
            accepted(builder_int_z_extend(builder, x, context_i32_type(module.get_context()), ""))
        },
        _ => Err(CompileError::Backend),
    }
}

impl<'a> LLVMPrintf<'a> for Primitive {
    /// Emits a call of the output routine that prints the literal, with the
    /// format of the literal's kind. A 16-bit integer is widened to 32 bits
    /// and a 32-bit float to 64 bits, as the routine expects; text is passed
    /// by the address of its bytes. The result is what the call returns.
    fn emit_ir_printf(&self, builder: &Builder<'a>, module: &Module<'a>) -> (r: Result<
        Value<'a>,
        CompileError,
    >)
        ensures
            r is Err ==> r->Err_0@ == ErrorView::Backend || r->Err_0@
                == ErrorView::UndefinedFunction("printf"@) || r->Err_0@ == ErrorView::TypeMismatch,
            r is Ok ==> printed_literal(*self, r->Ok_0),
    {
        let context = module.get_context();
        let format = emit_format(self.format(), builder, module)?;
        let argument = match self.passing() {
            Passing::Address => {
                let slot = self.emit_ir_alloca(builder, module)?;
                let argument = pointer_argument(slot);
                assert(argument == basic_argument(pointer_basic(slot)));
                argument
            },
            Passing::WidenedInteger => {
                let narrow = self.emit_ir_value(builder, module)?;
                let wide = widened_integer(builder, module, narrow)?;
                assert(int_extended(wide, narrow->Int_0));
                int_argument(wide)
            },
            Passing::WidenedFloat => match self.emit_ir_value(builder, module)? {
                Value::Float(x) => {
                    let wide = accepted(
                        builder_float_ext(builder, x, context_f64_type(context), ""),
                    )?;
                    assert(float_extended(wide, x));
                    float_argument(wide)
                },
                _ => {
                    return Err(CompileError::Backend);
                },
            },
            _ => {
                let constant = self.emit_ir_value(builder, module)?;
                let argument = as_argument(&constant);
                assert(argument == as_meta(constant));
                argument
            },
        };
        assert(passed(*self, argument));
        let r = emit_printf_call(format, argument, builder, module);
        proof {
            if r is Ok {
                assert(printf_called(format, argument, r->Ok_0));
                assert(printed_with(format_bytes(literal_format(*self)), argument, r->Ok_0));
            }
        }
        r
    }
}

impl Primitive {
    /// How the literal is handed to the output routine.
    pub fn passing(&self) -> (passing: Passing)
        ensures
            passing == passing_of(*self),
    {
        match self {
            Primitive::String(_) => Passing::Address,
            Primitive::Int16(_) => Passing::WidenedInteger,
            Primitive::Float32(_) => Passing::WidenedFloat,
            _ => Passing::Constant,
        }
    }

    /// The width and the bits of the constant that the literal becomes.
    pub fn constant_parts(&self) -> (parts: (u32, u64))
        ensures
            parts == (literal_width(*self), literal_bits(*self)),
    {
        match self {
            Primitive::Char(c) => {
                let cut = cut_to(*c as u32 as u64, 8);
                (8, cut)
            },
            Primitive::Float32(bits) => (32, cut_to(*bits as u64, 32)),
            Primitive::Float64(bits) => (64, *bits),
            Primitive::Int16(x) => {
                let wide: u64 = #[verifier::truncate]
                (*x as u64);
                (16, cut_to(wide, 16))
            },
            Primitive::Int32(x) => {
                let wide: u64 = #[verifier::truncate]
                (*x as u64);
                (32, cut_to(wide, 32))
            },
            Primitive::Int64(x) => {
                let wide: u64 = #[verifier::truncate]
                (*x as u64);
                (64, wide)
            },
            Primitive::String(_) => (8, 0),
        }
    }

    /// The type of the literal.
    pub fn get_datatype(&self) -> (datatype: DataType)
        ensures
            datatype@ == literal_datatype(*self),
    {
        match self {
            Primitive::Char(_) => DataType::new_primitive_type("Char", "Any", 8),
            Primitive::Float32(_) => DataType::new_primitive_type("Float32", "AbstractFloat", 32),
            Primitive::Float64(_) => DataType::new_primitive_type("Float64", "AbstractFloat", 64),
            Primitive::Int16(_) => DataType::new_primitive_type("Int16", "Signed", 16),
            Primitive::Int32(_) => DataType::new_primitive_type("Int32", "Signed", 32),
            Primitive::Int64(_) => DataType::new_primitive_type("Int64", "Signed", 64),
            Primitive::String(_) => DataType::new_primitive_type("String", "AbstractString", 8),
        }
    }

    /// The format that the literal is printed with.
    pub fn format(&self) -> (format: PrintFormat)
        ensures
            format == literal_format(*self),
    {
        match self {
            Primitive::Char(_) => PrintFormat::Character,
            Primitive::Float32(_) | Primitive::Float64(_) => PrintFormat::Decimal,
            Primitive::Int16(_) | Primitive::Int32(_) | Primitive::Int64(_) => PrintFormat::Integer,
            Primitive::String(_) => PrintFormat::Text,
        }
    }
}

} // verus!
