//! The tree module provides the structure of a class file.

use vstd::prelude::*;
use std::collections::BTreeMap;

verus! {

/// The first 4 bytes of every java class file.
pub open spec fn magic() -> Seq<u8> {
    seq![0xCAu8, 0xFEu8, 0xBAu8, 0xBEu8]
}

/// The views of the elements of a sequence, in order.
pub open spec fn views<T: View>(v: Seq<T>) -> Seq<T::V> {
    Seq::new(v.len(), |i: int| v[i]@)
}

/// The access flags of a part of the class: sixteen raw bits. One bit has
/// several names, each for another place of use.
#[derive(Debug, Clone, Copy, PartialEq, Eq, Structural, Hash)]
pub struct AccessFlags {
    pub bits: u16,
}

impl AccessFlags {
    /// Declared public.
    pub const PUBLIC: u16 = 0x0001;

    /// Declared private.
    pub const PRIVATE: u16 = 0x0002;

    /// Declared protected.
    pub const PROTECTED: u16 = 0x0004;

    /// Declared static.
    pub const STATIC: u16 = 0x0008;

    /// Declared final.
    pub const FINAL: u16 = 0x0010;

    /// Of a class: treat superclass methods specially.
    pub const SUPER: u16 = 0x0020;

    /// Of a method: declared synchronized.
    pub const SYNCHRONIZED: u16 = 0x0020;

    /// Of a module: open.
    pub const OPEN: u16 = 0x0020;

    /// Of a field: declared volatile.
    pub const VOLATILE: u16 = 0x0040;

    /// Of a method: a bridge made by the compiler.
    pub const BRIDGE: u16 = 0x0040;

    /// Of a requirement of a module: needed at compile time only.
    pub const STATIC_PHASE: u16 = 0x0040;

    /// Of a field: declared transient.
    pub const TRANSIENT: u16 = 0x0080;

    /// Of a method: takes a variable number of arguments.
    pub const VARARGS: u16 = 0x0080;

    /// Of a method: declared native.
    pub const NATIVE: u16 = 0x0100;

    /// An interface.
    pub const INTERFACE: u16 = 0x0200;

    /// Declared abstract.
    pub const ABSTRACT: u16 = 0x0400;

    /// Of a method: strict floating point.
    pub const STRICT: u16 = 0x0800;

    /// Not present in the source.
    pub const SYNTHETIC: u16 = 0x1000;

    /// An annotation type.
    pub const ANNOTATION: u16 = 0x2000;

    /// An enum, or a field of one.
    pub const ENUM: u16 = 0x4000;

    /// A module.
    pub const MODULE: u16 = 0x8001;

    /// Mandated by the language.
    pub const MANDATED: u16 = 0x8001;

    /// The flags with exactly the bits of `bits`: each of the sixteen has a name.
    pub fn from_bits_truncate(bits: u16) -> (flags: AccessFlags)
        ensures
            flags.bits == bits,
    {
        AccessFlags { bits }
    }

    /// The raw bits.
    pub fn bits(&self) -> (bits: u16)
        ensures
            bits == self.bits,
    {
        self.bits
    }

    /// No flag.
    pub fn empty() -> (flags: AccessFlags)
        ensures
            flags.bits == 0,
    {
        AccessFlags { bits: 0 }
    }

    /// Whether every bit of `other` is set.
    pub fn contains(&self, other: u16) -> (b: bool)
        ensures
            b == (self.bits & other == other),
    {
        self.bits & other == other
    }
}

/// A java class file.
#[derive(Debug)]
pub struct Class {
    /// The minor version number, usually `0` and used together with `major_version`.
    pub minor_version: u16,
    /// The major version number, used together with `minor_version`.
    pub major_version: u16,
    /// Denotes access permissions to and properties of this class.
    pub access_flags: AccessFlags,
    /// The name of the class at a specific index into the constant pool.
    pub name: u16,
    /// The super name of the class at either `0` or a specific index into the constant pool.
    /// If it is `0` this class file must be the class `java/lang/Object`.
    pub super_name: u16,
    /// The indices to the interfaces in the constant pool, this class is implementing.
    pub interfaces: Vec<u16>,
    /// The fields this class declares.
    pub fields: Vec<Field>,
    /// The methods this class declares.
    pub methods: Vec<Method>,
    /// The attributes of this class file.
    pub attributes: Vec<Attribute>,
}

/// What a class holds, as mathematical values.
pub struct ClassView {
    pub minor_version: u16,
    pub major_version: u16,
    pub access_flags: AccessFlags,
    pub name: u16,
    pub super_name: u16,
    pub interfaces: Seq<u16>,
    pub fields: Seq<MemberView>,
    pub methods: Seq<MemberView>,
    pub attributes: Seq<AttributeView>,
}

impl View for Class {
    type V = ClassView;

    open spec fn view(&self) -> ClassView {
        ClassView {
            minor_version: self.minor_version,
            major_version: self.major_version,
            access_flags: self.access_flags,
            name: self.name,
            super_name: self.super_name,
            interfaces: self.interfaces@,
            fields: views(self.fields@),
            methods: views(self.methods@),
            attributes: views(self.attributes@),
        }
    }
}

/// A field.
#[derive(Debug)]
pub struct Field {
    /// Denotes access permissions to and properties of this field.
    pub access_flags: AccessFlags,
    /// The name of the field at a specific index into the constant pool.
    pub name: u16,
    /// The descriptor of the field at a specific index into the constant pool.
    pub desc: u16,
    /// The attributes of this field.
    pub attributes: Vec<Attribute>,
}

/// A method.
#[derive(Debug)]
pub struct Method {
    /// Denotes access permissions to and properties of this method.
    pub access_flags: AccessFlags,
    /// The name of the method at a specific index into the constant pool.
    pub name: u16,
    /// The descriptor of the method at a specific index into the constant pool.
    pub desc: u16,
    /// The attributes of this method.
    pub attributes: Vec<Attribute>,
}

/// What a field or a method holds.
pub struct MemberView {
    pub access_flags: AccessFlags,
    pub name: u16,
    pub desc: u16,
    pub attributes: Seq<AttributeView>,
}

impl View for Field {
    type V = MemberView;

    open spec fn view(&self) -> MemberView {
        MemberView {
            access_flags: self.access_flags,
            name: self.name,
            desc: self.desc,
            attributes: views(self.attributes@),
        }
    }
}

impl View for Method {
    type V = MemberView;

    open spec fn view(&self) -> MemberView {
        MemberView {
            access_flags: self.access_flags,
            name: self.name,
            desc: self.desc,
            attributes: views(self.attributes@),
        }
    }
}

/// An Attribute.
#[derive(Debug)]
pub enum Attribute {
    /// Records the default value of an annotation attribute.
    AnnotationDefault(ElementValue),
    /// Records specifiers referenced by `Instruction::InvokeDynamic(_)`.
    BootstrapMethods(Vec<BootstrapMethod>),
    /// Contains the JVM instructions, exceptions and more attributes.
    Code {
        /// The maximum size of the operand stack of this method.
        max_stack: u16,
        /// The maximum count of the locals of this method.
        max_locals: u16,
        /// The JVM instructions of this method, each at the index that is
        /// its byte offset in the code. `None`s are padding: they stand
        /// where the bytes of an instruction go on. When writing, they are
        /// ignored and thus can be omitted.
        instructions: Vec<Option<Instruction>>,
        /// The exception handlers of the code.
        exceptions: Vec<Exception>,
        /// The attributes of this code attribute.
        attributes: Vec<Attribute>,
    },
    /// Represents the value of a constant expression.
    ConstantValue(u16),
    /// Marks that class, field or method is deprecated.
    Deprecated,
    /// A class containing this attribute represents a local or an anonymous class.
    EnclosingMethod {
        /// The innermost class enclosing the declaration of this class.
        class_index: u16,
        /// The innermost name and type of the method enclosing the declaration of this class.
        method_index: u16,
    },
    Exceptions(Vec<u16>),
    /// The inner classes of a class, used as debug information.
    InnerClasses(Vec<InnerClass>),
    /// Specifies the line numbers of certain parts of the code attribute.
    LineNumberTable(Vec<LineNumber>),
    /// Specifies the name, type and scope of a local variable.
    LocalVariableTable(Vec<LocalVariable>),
    /// Specifies the name, type and scope of a local variable.
    LocalVariableTypeTable(Vec<LocalVariableType>),
    /// Records information of method parameters.
    MethodParameters(Vec<MethodParameter>),
    /// Specifies information required by a module.
    Module {
        /// The name of this module.
        name: u16,
        /// Denotes access permissions to and properties of this module.
        flags: AccessFlags,
        /// Represents the version of this module.
        version: u16,
        /// Specifies the dependencies of this module.
        requires: Vec<Requirement>,
        /// Specifies the packages exported by this module.
        exports: Vec<Export>,
        /// Specifies the packages opened by this module.
        opens: Vec<Opening>,
        /// Specifies the classes, this module might discover using `java/util/ServiceLoader`.
        uses: Vec<u16>,
        /// Specifies the service implementations for a given service interface.
        provides: Vec<Provider>,
    },
    /// Specifies the main class of a module.
    ModuleMainClass(u16),
    /// Indicates all the packages of a module.
    ModulePackages(Vec<u16>),
    /// Runtime visible annotations.
    RuntimeVisibleAnnotations(Vec<Annotation>),
    /// Runtime invisible annotations.
    RuntimeInvisibleAnnotations(Vec<Annotation>),
    /// Runtime visible parameter annotations, by parameter.
    RuntimeVisibleParameterAnnotations(Vec<Vec<Annotation>>),
    /// Runtime invisible parameter annotations, by parameter.
    RuntimeInvisibleParameterAnnotations(Vec<Vec<Annotation>>),
    /// Runtime visible type annotations.
    RuntimeVisibleTypeAnnotations(Vec<TypeAnnotation>),
    /// Runtime invisible type annotations.
    RuntimeInvisibleTypeAnnotations(Vec<TypeAnnotation>),
    /// Specifies a signature.
    Signature(u16),
    /// Declares a hidden class, field or method.
    Synthetic,
    /// Specifies the file this class file was compiled from.
    SourceFile(u16),
    /// Holds debug information.
    SourceDebugExtension(String),
    /// Provides information used for type verification.
    StackMapTable(Vec<StackMapFrame>),
    /// This attribute is not defined in the JVM Specification:
    /// the index of its name, and its bytes as they are.
    Unknown(u16, Vec<u8>),
}

/// What an attribute holds, as mathematical values.
pub enum AttributeView {
    AnnotationDefault(ElementValueView),
    BootstrapMethods(Seq<BootstrapMethodView>),
    Code {
        max_stack: u16,
        max_locals: u16,
        instructions: Seq<Option<InstructionView>>,
        exceptions: Seq<Exception>,
        attributes: Seq<AttributeView>,
    },
    ConstantValue(u16),
    Deprecated,
    EnclosingMethod { class_index: u16, method_index: u16 },
    Exceptions(Seq<u16>),
    InnerClasses(Seq<InnerClass>),
    LineNumberTable(Seq<LineNumber>),
    LocalVariableTable(Seq<LocalVariable>),
    LocalVariableTypeTable(Seq<LocalVariableType>),
    MethodParameters(Seq<MethodParameter>),
    Module {
        name: u16,
        flags: AccessFlags,
        version: u16,
        requires: Seq<Requirement>,
        exports: Seq<ExportView>,
        opens: Seq<ExportView>,
        uses: Seq<u16>,
        provides: Seq<ProviderView>,
    },
    ModuleMainClass(u16),
    ModulePackages(Seq<u16>),
    RuntimeVisibleAnnotations(Seq<AnnotationView>),
    RuntimeInvisibleAnnotations(Seq<AnnotationView>),
    RuntimeVisibleParameterAnnotations(Seq<Seq<AnnotationView>>),
    RuntimeInvisibleParameterAnnotations(Seq<Seq<AnnotationView>>),
    RuntimeVisibleTypeAnnotations(Seq<TypeAnnotationView>),
    RuntimeInvisibleTypeAnnotations(Seq<TypeAnnotationView>),
    Signature(u16),
    Synthetic,
    SourceFile(u16),
    SourceDebugExtension(Seq<char>),
    StackMapTable(Seq<StackMapFrameView>),
    Unknown(u16, Seq<u8>),
}

/// The views of optional instructions, in order.
pub open spec fn code_view(v: Seq<Option<Instruction>>) -> Seq<Option<InstructionView>> {
    Seq::new(
        v.len(),
        |i: int|
            match v[i] {
                Some(insn) => Some(insn@),
                None => None,
            },
    )
}

/// The views of the annotations of each parameter, in order.
pub open spec fn parameter_views(v: Seq<Vec<Annotation>>) -> Seq<Seq<AnnotationView>> {
    Seq::new(v.len(), |i: int| views(v[i]@))
}

impl View for Attribute {
    type V = AttributeView;

    open spec fn view(&self) -> AttributeView
        decreases self,
    {
        match self {
            Attribute::AnnotationDefault(value) => AttributeView::AnnotationDefault(value@),
            Attribute::BootstrapMethods(v) => AttributeView::BootstrapMethods(views(v@)),
            Attribute::Code { max_stack, max_locals, instructions, exceptions, attributes } => {
                AttributeView::Code {
                    max_stack: *max_stack,
                    max_locals: *max_locals,
                    instructions: code_view(instructions@),
                    exceptions: exceptions@,
                    attributes: Seq::new(
                        attributes@.len(),
                        |i: int|
                            if 0 <= i < attributes@.len() {
                                attributes@[i].view()
                            } else {
                                AttributeView::Deprecated
                            },
                    ),
                }
            },
            Attribute::ConstantValue(i) => AttributeView::ConstantValue(*i),
            Attribute::Deprecated => AttributeView::Deprecated,
            Attribute::EnclosingMethod { class_index, method_index } => {
                AttributeView::EnclosingMethod {
                    class_index: *class_index,
                    method_index: *method_index,
                }
            },
            Attribute::Exceptions(v) => AttributeView::Exceptions(v@),
            Attribute::InnerClasses(v) => AttributeView::InnerClasses(v@),
            Attribute::LineNumberTable(v) => AttributeView::LineNumberTable(v@),
            Attribute::LocalVariableTable(v) => AttributeView::LocalVariableTable(v@),
            Attribute::LocalVariableTypeTable(v) => AttributeView::LocalVariableTypeTable(v@),
            Attribute::MethodParameters(v) => AttributeView::MethodParameters(v@),
            Attribute::Module {
                name,
                flags,
                version,
                requires: requirements,
                exports,
                opens,
                uses,
                provides,
            } => {
                AttributeView::Module {
                    name: *name,
                    flags: *flags,
                    version: *version,
                    requires: requirements@,
                    exports: views(exports@),
                    opens: views(opens@),
                    uses: uses@,
                    provides: views(provides@),
                }
            },
            Attribute::ModuleMainClass(i) => AttributeView::ModuleMainClass(*i),
            Attribute::ModulePackages(v) => AttributeView::ModulePackages(v@),
            Attribute::RuntimeVisibleAnnotations(v) => AttributeView::RuntimeVisibleAnnotations(
                views(v@),
            ),
            Attribute::RuntimeInvisibleAnnotations(v) => AttributeView::RuntimeInvisibleAnnotations(
                views(v@),
            ),
            Attribute::RuntimeVisibleParameterAnnotations(v) => {
                AttributeView::RuntimeVisibleParameterAnnotations(parameter_views(v@))
            },
            Attribute::RuntimeInvisibleParameterAnnotations(v) => {
                AttributeView::RuntimeInvisibleParameterAnnotations(parameter_views(v@))
            },
            Attribute::RuntimeVisibleTypeAnnotations(v) => {
                AttributeView::RuntimeVisibleTypeAnnotations(views(v@))
            },
            Attribute::RuntimeInvisibleTypeAnnotations(v) => {
                AttributeView::RuntimeInvisibleTypeAnnotations(views(v@))
            },
            Attribute::Signature(i) => AttributeView::Signature(*i),
            Attribute::Synthetic => AttributeView::Synthetic,
            Attribute::SourceFile(i) => AttributeView::SourceFile(*i),
            Attribute::SourceDebugExtension(s) => AttributeView::SourceDebugExtension(s@),
            Attribute::StackMapTable(v) => AttributeView::StackMapTable(views(v@)),
            Attribute::Unknown(i, bytes) => AttributeView::Unknown(*i, bytes@),
        }
    }
}

/// An entry of the exception table of a code: a range of the code, its handler, and the class that is caught.
#[derive(Debug, Clone, Copy, PartialEq, Eq, Structural)]
pub struct Exception {
    pub start: u16,
    pub end: u16,
    pub handler: u16,
    pub catch_type: u16,
}

/// A bootstrap method: a method handle and its arguments.
#[derive(Debug)]
pub struct BootstrapMethod {
    pub method_ref: u16,
    pub arguments: Vec<u16>,
}

/// What a bootstrap method holds, as mathematical values.
pub struct BootstrapMethodView {
    pub method_ref: u16,
    pub arguments: Seq<u16>,
}

impl View for BootstrapMethod {
    type V = BootstrapMethodView;

    open spec fn view(&self) -> BootstrapMethodView {
        BootstrapMethodView { method_ref: self.method_ref, arguments: self.arguments@ }
    }
}

/// A line of the source, and where its code starts.
#[derive(Debug, Clone, Copy, PartialEq, Eq, Structural)]
pub struct LineNumber {
    pub start: u16,
    pub line_number: u16,
}

/// An instruction of the JVM. A local variable index, a jump offset and a
/// constant pool index stand in their widest form; which opcode they are
/// written with follows from their size.
#[derive(Debug)]
#[allow(inconsistent_fields)]
pub enum Instruction {
    NOP,
    AConstNull,
    IConstM1,
    IConst0,
    IConst1,
    IConst2,
    IConst3,
    IConst4,
    IConst5,
    LConst0,
    LConst1,
    FConst0,
    FConst1,
    FConst2,
    DConst0,
    DConst1,
    BIPush(i8),
    SIPush(i16),
    LDC(u16),
    ILoad(u16),
    LLoad(u16),
    FLoad(u16),
    DLoad(u16),
    ALoad(u16),
    ILoad0,
    ILoad1,
    ILoad2,
    ILoad3,
    LLoad0,
    LLoad1,
    LLoad2,
    LLoad3,
    FLoad0,
    FLoad1,
    FLoad2,
    FLoad3,
    DLoad0,
    DLoad1,
    DLoad2,
    DLoad3,
    ALoad0,
    ALoad1,
    ALoad2,
    ALoad3,
    IALoad,
    LALoad,
    FALoad,
    DALoad,
    AALoad,
    BALoad,
    CALoad,
    SALoad,
    IStore(u16),
    LStore(u16),
    FStore(u16),
    DStore(u16),
    AStore(u16),
    IStore0,
    IStore1,
    IStore2,
    IStore3,
    LStore0,
    LStore1,
    LStore2,
    LStore3,
    FStore0,
    FStore1,
    FStore2,
    FStore3,
    DStore0,
    DStore1,
    DStore2,
    DStore3,
    AStore0,
    AStore1,
    AStore2,
    AStore3,
    IAStore,
    LAStore,
    FAStore,
    DAStore,
    AAStore,
    BAStore,
    CAStore,
    SAStore,
    Pop,
    Pop2,
    Dup,
    DupX1,
    DupX2,
    Dup2,
    Dup2X1,
    Dup2X2,
    Swap,
    IAdd,
    LAdd,
    FAdd,
    DAdd,
    ISub,
    LSub,
    FSub,
    DSub,
    IMul,
    LMul,
    FMul,
    DMul,
    IDiv,
    LDiv,
    FDiv,
    DDiv,
    IRem,
    LRem,
    FRem,
    DRem,
    INeg,
    LNeg,
    FNeg,
    DNeg,
    IShL,
    LShL,
    IShR,
    LShR,
    IUShR,
    LUShR,
    IAnd,
    LAnd,
    IOr,
    LOr,
    IXOr,
    LXOr,
    IInc(u16, i16),
    I2L,
    I2F,
    I2D,
    L2I,
    L2F,
    L2D,
    F2I,
    F2L,
    F2D,
    D2I,
    D2L,
    D2F,
    I2B,
    I2C,
    I2S,
    LCmp,
    FCmpL,
    FCmpG,
    DCmpL,
    DCmpG,
    IfEq(i16),
    IfNE(i16),
    IfLT(i16),
    IfGE(i16),
    IfGT(i16),
    IfLE(i16),
    IfICmpEq(i16),
    IfICmpNE(i16),
    IfICmpLT(i16),
    IfICmpGE(i16),
    IfICmpGT(i16),
    IfICmpLE(i16),
    IfACmpEq(i16),
    IfACmpNE(i16),
    GoTo(i32),
    JSR(i32),
    Ret(u16),
    TableSwitch { default: i32, low: i32, high: i32, offsets: Vec<i32> },
    LookupSwitch { default: i32, offsets: BTreeMap<i32, i32> },
    IReturn,
    LReturn,
    FReturn,
    DReturn,
    AReturn,
    Return,
    GetStatic(u16),
    PutStatic(u16),
    GetField(u16),
    PutField(u16),
    InvokeVirtual(u16),
    InvokeSpecial(u16),
    InvokeStatic(u16),
    InvokeInterface(u16, u8),
    InvokeDynamic(u16),
    New(u16),
    NewArray(ArrayType),
    ANewArray(u16),
    ArrayLength,
    AThrow,
    CheckCast(u16),
    InstanceOf(u16),
    MonitorEnter,
    MonitorExit,
    MultiANewArray(u16, u8),
    IfNull(i16),
    IfNonNull(i16),
    BreakPoint,
    ImpDep1,
    ImpDep2,
}

/// An instruction as contracts see it: itself, but for the two switches,
/// whose tables are a sequence and a map.
#[allow(inconsistent_fields)]
pub enum InstructionView {
    Plain(Instruction),
    TableSwitch { default: i32, low: i32, high: i32, offsets: Seq<i32> },
    LookupSwitch { default: i32, offsets: Map<i32, i32> },
}

impl View for Instruction {
    type V = InstructionView;

    open spec fn view(&self) -> InstructionView {
        match *self {
            Instruction::TableSwitch { default, low, high, offsets } => InstructionView::TableSwitch {
                default,
                low,
                high,
                offsets: offsets@,
            },
            Instruction::LookupSwitch { default, offsets } => InstructionView::LookupSwitch {
                default,
                offsets: offsets@,
            },
            _ => InstructionView::Plain(*self),
        }
    }
}

/// The element type of an array of primitive values.
#[derive(Debug, Clone, Copy, PartialEq, Eq, Structural)]
pub enum ArrayType {
    Boolean,
    Char,
    Float,
    Double,
    Byte,
    Short,
    Int,
    Long,
}

/// An inner class: the class, the class around it, its name and its flags.
#[derive(Debug, Clone, Copy, PartialEq, Eq, Structural)]
pub struct InnerClass {
    pub inner_class_info: u16,
    pub outer_class_info: u16,
    pub inner_name: u16,
    pub inner_class_access_flags: AccessFlags,
}

/// A frame of a stack map table.
#[derive(Debug)]
#[allow(inconsistent_fields)]
pub enum StackMapFrame {
    Same { offset_delta: u16 },
    Same1 { offset_delta: u16, stack: VerificationType },
    Chop { offset_delta: u16, count: u8 },
    Append { offset_delta: u16, locals: Vec<VerificationType> },
    Full { offset_delta: u16, locals: Vec<VerificationType>, stack: Vec<VerificationType> },
}

/// What a stack map frame holds, as mathematical values.
#[allow(inconsistent_fields)]
pub enum StackMapFrameView {
    Same { offset_delta: u16 },
    Same1 { offset_delta: u16, stack: VerificationType },
    Chop { offset_delta: u16, count: u8 },
    Append { offset_delta: u16, locals: Seq<VerificationType> },
    Full { offset_delta: u16, locals: Seq<VerificationType>, stack: Seq<VerificationType> },
}

impl View for StackMapFrame {
    type V = StackMapFrameView;

    open spec fn view(&self) -> StackMapFrameView {
        match *self {
            StackMapFrame::Same { offset_delta } => StackMapFrameView::Same { offset_delta },
            StackMapFrame::Same1 { offset_delta, stack } => StackMapFrameView::Same1 {
                offset_delta,
                stack,
            },
            StackMapFrame::Chop { offset_delta, count } => StackMapFrameView::Chop {
                offset_delta,
                count,
            },
            StackMapFrame::Append { offset_delta, locals } => StackMapFrameView::Append {
                offset_delta,
                locals: locals@,
            },
            StackMapFrame::Full { offset_delta, locals, stack } => StackMapFrameView::Full {
                offset_delta,
                locals: locals@,
                stack: stack@,
            },
        }
    }
}

/// The type of a local or of a stack entry, as the verifier of the machine sees it.
#[derive(Debug, Clone, Copy, PartialEq, Eq, Structural)]
pub enum VerificationType {
    Top,
    Integer,
    Float,
    Double,
    Long,
    Null,
    UninitializedThis,
    Object(u16),
    Uninitialized(u16),
}

/// An annotation: its type, and pairs of a name and a value.
#[derive(Debug)]
pub struct Annotation {
    /// Must be an index to the constant pool with an `Item::UTF8(_)`
    /// representing a field descriptor.
    pub type_index: u16,
    /// The value every single pair holds.
    /// The first part is an index to the constant pool,
    /// which must be an `Item::UTF8(_)`.
    /// The second one is the value itself.
    pub element_value_pairs: Vec<(u16, ElementValue)>,
}

/// What an annotation holds, as mathematical values.
pub struct AnnotationView {
    pub type_index: u16,
    pub element_value_pairs: Seq<(u16, ElementValueView)>,
}

/// A value of an annotation.
#[derive(Debug)]
pub enum ElementValue {
    /// The index to the constant pool which must be an `Item::Integer(_)`.
    Byte(u16),
    /// The index to the constant pool which must be an `Item::Integer(_)`.
    Short(u16),
    /// The index to the constant pool which must be an `Item::Integer(_)`.
    Char(u16),
    /// The index to the constant pool which must be an `Item::Integer(_)`.
    Int(u16),
    /// The index to the constant pool which must be an `Item::Long(_)`.
    Long(u16),
    /// The index to the constant pool which must be an `Item::Float(_)`.
    Float(u16),
    /// The index to the constant pool which must be an `Item::Double(_)`.
    Double(u16),
    /// The index to the constant pool which must be an `Item::Integer(_)`.
    Boolean(u16),
    /// The index to the constant pool which must be an `Item::UTF8(_)`.
    String(u16),
    /// An enum constant.
    Enum {
        /// The index to the constant pool, which must be an `Item::UTF8(_)`.
        enum_type: u16,
        /// The index to the constant pool, which must be an `Item::UTF8(_)`.
        const_name: u16,
    },
    /// A class literal.
    Class(u16),
    /// Another annotation.
    Annotation(Box<Annotation>),
    /// Multiple `ElementValue`s.
    Array(Vec<ElementValue>),
}

/// What a value of an annotation holds, as mathematical values.
pub enum ElementValueView {
    Byte(u16),
    Short(u16),
    Char(u16),
    Int(u16),
    Long(u16),
    Float(u16),
    Double(u16),
    Boolean(u16),
    String(u16),
    Enum { enum_type: u16, const_name: u16 },
    Class(u16),
    Annotation(Box<AnnotationView>),
    Array(Seq<ElementValueView>),
}

impl View for Annotation {
    type V = AnnotationView;

    open spec fn view(&self) -> AnnotationView
        decreases self,
    {
        AnnotationView {
            type_index: self.type_index,
            element_value_pairs: Seq::new(
                self.element_value_pairs@.len(),
                |i: int|
                    if 0 <= i < self.element_value_pairs@.len() {
                        (self.element_value_pairs@[i].0, self.element_value_pairs@[i].1.view())
                    } else {
                        (0u16, ElementValueView::Byte(0))
                    },
            ),
        }
    }
}

impl View for ElementValue {
    type V = ElementValueView;

    open spec fn view(&self) -> ElementValueView
        decreases self,
    {
        match self {
            ElementValue::Byte(i) => ElementValueView::Byte(*i),
            ElementValue::Short(i) => ElementValueView::Short(*i),
            ElementValue::Char(i) => ElementValueView::Char(*i),
            ElementValue::Int(i) => ElementValueView::Int(*i),
            ElementValue::Long(i) => ElementValueView::Long(*i),
            ElementValue::Float(i) => ElementValueView::Float(*i),
            ElementValue::Double(i) => ElementValueView::Double(*i),
            ElementValue::Boolean(i) => ElementValueView::Boolean(*i),
            ElementValue::String(i) => ElementValueView::String(*i),
            ElementValue::Enum { enum_type, const_name } => ElementValueView::Enum {
                enum_type: *enum_type,
                const_name: *const_name,
            },
            ElementValue::Class(i) => ElementValueView::Class(*i),
            ElementValue::Annotation(a) => ElementValueView::Annotation(Box::new((**a).view())),
            ElementValue::Array(v) => ElementValueView::Array(
                Seq::new(
                    v@.len(),
                    |i: int|
                        if 0 <= i < v@.len() {
                            v@[i].view()
                        } else {
                            ElementValueView::Byte(0)
                        },
                ),
            ),
        }
    }
}

/// An annotation of a type: what it is about, the path to the part it is about, and the annotation.
#[derive(Debug)]
pub struct TypeAnnotation {
    pub target_type: TargetType,
    pub target_path: Vec<TypePathElement>,
    pub annotation: Annotation,
}

/// What an annotation of a type holds, as mathematical values.
pub struct TypeAnnotationView {
    pub target_type: TargetTypeView,
    pub target_path: Seq<TypePathElement>,
    pub annotation: AnnotationView,
}

impl View for TypeAnnotation {
    type V = TypeAnnotationView;

    open spec fn view(&self) -> TypeAnnotationView {
        TypeAnnotationView {
            target_type: self.target_type@,
            target_path: self.target_path@,
            annotation: self.annotation@,
        }
    }
}

/// What an annotation of a type is about.
#[derive(Debug)]
pub enum TargetType {
    /// On the type parameter of a class: the index of the type parameter.
    TypeParameterClass(u8),
    /// On the type parameter of a method: the index of the type parameter.
    TypeParameterMethod(u8),
    /// On the implements or extends clause of a class:
    /// the index of the super type, 0xFFFF is the extends clause.
    SuperType(u16),
    /// On a bound of a type parameter of a class.
    TypeParameterBoundClass { type_parameter: u8, bound_index: u8 },
    /// On a bound of a type parameter of a method.
    TypeParameterBoundMethod { type_parameter: u8, bound_index: u8 },
    /// On the type of a field declaration.
    EmptyField,
    /// On the return type of a method or the type of a newly constructed object.
    EmptyReturn,
    /// On the receiver type of a method.
    EmptyReceiver,
    /// On the type in a formal parameter declaration: the index of the formal parameter.
    FormalParameter(u8),
    /// On the type in a throws clause:
    /// the index into the table of the `Exceptions` attribute of the method.
    Throws(u16),
    /// On the type in a local variable declaration.
    LocalVariable(Vec<LocalVariableTarget>),
    /// On the type in a resource variable declaration.
    ResourceVariable(Vec<LocalVariableTarget>),
    /// On the type in an exception parameter declaration.
    Catch(u16),
    /// On the type in an instanceof expression.
    OffsetInstanceOf(u16),
    /// On the type in a new expression.
    OffsetNew(u16),
    /// On the type before the ::new of a method reference expression.
    OffsetNewRef(u16),
    /// On the type before the ::name of a method reference expression.
    OffsetRef(u16),
    /// On the type of a cast expression.
    TypeArgumentCast { offset: u16, type_argument: u8 },
    /// On the type of a method call expression.
    TypeArgumentMethod { offset: u16, type_argument: u8 },
    /// On the type of a new expression.
    TypeArgumentConstructor { offset: u16, type_argument: u8 },
    /// On the type of a ::new expression.
    TypeArgumentNewRef { offset: u16, type_argument: u8 },
    /// On the type of a ::name expression.
    TypeArgumentRef { offset: u16, type_argument: u8 },
}

/// A target type as contracts see it: itself, but for the two with a
/// table, which is a sequence.
pub enum TargetTypeView {
    Plain(TargetType),
    LocalVariable(Seq<LocalVariableTarget>),
    ResourceVariable(Seq<LocalVariableTarget>),
}

impl View for TargetType {
    type V = TargetTypeView;

    open spec fn view(&self) -> TargetTypeView {
        match *self {
            TargetType::LocalVariable(table) => TargetTypeView::LocalVariable(table@),
            TargetType::ResourceVariable(table) => TargetTypeView::ResourceVariable(table@),
            _ => TargetTypeView::Plain(*self),
        }
    }
}

/// A step of a type path.
#[derive(Debug, Clone, Copy, PartialEq, Eq, Structural)]
pub struct TypePathElement {
    pub path_kind: TypePathKind,
    pub argument_index: u8,
}

/// The kind of a step of a type path.
#[derive(Debug, Clone, Copy, PartialEq, Eq, Structural)]
pub enum TypePathKind {
    /// Annotation is deeper in an array kind.
    ArrayType,
    /// Annotation is deeper in a nested type.
    NestedType,
    /// Annotation is on the bound of a wildcard type argument of a parameterized type.
    WildcardType,
    /// Annotation is on a type argument of a parameterized type.
    Type,
}

/// A range of the code in which a local variable has a value, and its index.
#[derive(Debug, Clone, Copy, PartialEq, Eq, Structural)]
pub struct LocalVariableTarget {
    /// Start of the code.
    pub start: u16,
    /// Length of the code.
    pub length: u16,
    /// The index in the local variable array of the current frame.
    pub index: u16,
}

/// An entry of the `LocalVariableTable`.
#[derive(Debug, Clone, Copy, PartialEq, Eq, Structural)]
pub struct LocalVariable {
    /// Start of the code.
    pub start: u16,
    /// Length of the code.
    pub length: u16,
    /// The index to an `Item::UTF8(_)` representing a valid unqualified name.
    pub name: u16,
    /// The index to an `Item::UTF8(_)` representing a field/type descriptor.
    pub descriptor: u16,
    /// The index in the local variable array of the current frame.
    pub index: u16,
}

/// An entry of the `LocalVariableTypeTable`.
#[derive(Debug, Clone, Copy, PartialEq, Eq, Structural)]
pub struct LocalVariableType {
    /// Start of the code.
    pub start: u16,
    /// Length of the code.
    pub length: u16,
    /// The index to an `Item::UTF8(_)` representing a valid unqualified name.
    pub name: u16,
    /// The index to an `Item::UTF8(_)` representing a field signature.
    pub signature: u16,
    /// The index in the local variable array of the current frame.
    pub index: u16,
}

/// A parameter of a method: its name and its flags.
#[derive(Debug, Clone, Copy, PartialEq, Eq, Structural)]
pub struct MethodParameter {
    pub name: u16,
    pub access_flags: AccessFlags,
}

/// A module that a module requires.
#[derive(Debug, Clone, Copy, PartialEq, Eq, Structural)]
pub struct Requirement {
    pub index: u16,
    pub flags: AccessFlags,
    pub version: u16,
}

/// A package that a module exports, and to which modules.
#[derive(Debug)]
pub struct Export {
    pub index: u16,
    pub flags: AccessFlags,
    pub to: Vec<u16>,
}

/// A package that a module opens, and to which modules.
#[derive(Debug)]
pub struct Opening {
    pub index: u16,
    pub flags: AccessFlags,
    pub to: Vec<u16>,
}

/// What an `Export` or an `Opening` holds.
pub struct ExportView {
    pub index: u16,
    pub flags: AccessFlags,
    pub to: Seq<u16>,
}

impl View for Export {
    type V = ExportView;

    open spec fn view(&self) -> ExportView {
        ExportView { index: self.index, flags: self.flags, to: self.to@ }
    }
}

impl View for Opening {
    type V = ExportView;

    open spec fn view(&self) -> ExportView {
        ExportView { index: self.index, flags: self.flags, to: self.to@ }
    }
}

/// A service that a module provides, and the classes that implement it.
#[derive(Debug)]
pub struct Provider {
    pub index: u16,
    pub with: Vec<u16>,
}

/// What a provider holds, as mathematical values.
pub struct ProviderView {
    pub index: u16,
    pub with: Seq<u16>,
}

impl View for Provider {
    type V = ProviderView;

    open spec fn view(&self) -> ProviderView {
        ProviderView { index: self.index, with: self.with@ }
    }
}

} // verus!
