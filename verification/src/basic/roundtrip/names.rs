//! The names of the attributes differ from one another.

use vstd::prelude::*;

verus! {

/// The length and the second char of each attribute's name: no two names
/// have both in common.
pub proof fn lemma_name_marks()
    ensures
        "AnnotationDefault"@.len() == 17 && "AnnotationDefault"@[1] == 'n',
        "BootstrapMethods"@.len() == 16 && "BootstrapMethods"@[1] == 'o',
        "Code"@.len() == 4 && "Code"@[1] == 'o',
        "ConstantValue"@.len() == 13 && "ConstantValue"@[1] == 'o',
        "Deprecated"@.len() == 10 && "Deprecated"@[1] == 'e',
        "EnclosingMethod"@.len() == 15 && "EnclosingMethod"@[1] == 'n',
        "Exceptions"@.len() == 10 && "Exceptions"@[1] == 'x',
        "InnerClasses"@.len() == 12 && "InnerClasses"@[1] == 'n',
        "LineNumberTable"@.len() == 15 && "LineNumberTable"@[1] == 'i',
        "LocalVariableTable"@.len() == 18 && "LocalVariableTable"@[1] == 'o',
        "LocalVariableTypeTable"@.len() == 22 && "LocalVariableTypeTable"@[1] == 'o',
        "MethodParameters"@.len() == 16 && "MethodParameters"@[1] == 'e',
        "Module"@.len() == 6 && "Module"@[1] == 'o',
        "ModuleMainClass"@.len() == 15 && "ModuleMainClass"@[1] == 'o',
        "ModulePackages"@.len() == 14 && "ModulePackages"@[1] == 'o',
        "RuntimeVisibleAnnotations"@.len() == 25 && "RuntimeVisibleAnnotations"@[1] == 'u',
        "RuntimeInvisibleAnnotations"@.len() == 27 && "RuntimeInvisibleAnnotations"@[1] == 'u',
        "RuntimeVisibleParameterAnnotations"@.len() == 34 && "RuntimeVisibleParameterAnnotations"@[1] == 'u',
        "RuntimeInvisibleParameterAnnotations"@.len() == 36 && "RuntimeInvisibleParameterAnnotations"@[1] == 'u',
        "RuntimeVisibleTypeAnnotations"@.len() == 29 && "RuntimeVisibleTypeAnnotations"@[1] == 'u',
        "RuntimeInvisibleTypeAnnotations"@.len() == 31 && "RuntimeInvisibleTypeAnnotations"@[1] == 'u',
        "SourceFile"@.len() == 10 && "SourceFile"@[1] == 'o',
        "Signature"@.len() == 9 && "Signature"@[1] == 'i',
        "StackMapTable"@.len() == 13 && "StackMapTable"@[1] == 't',
        "Synthetic"@.len() == 9 && "Synthetic"@[1] == 'y',
        "SourceDebugExtension"@.len() == 20 && "SourceDebugExtension"@[1] == 'o',
{
    reveal_strlit("AnnotationDefault");
    reveal_strlit("BootstrapMethods");
    reveal_strlit("Code");
    reveal_strlit("ConstantValue");
    reveal_strlit("Deprecated");
    reveal_strlit("EnclosingMethod");
    reveal_strlit("Exceptions");
    reveal_strlit("InnerClasses");
    reveal_strlit("LineNumberTable");
    reveal_strlit("LocalVariableTable");
    reveal_strlit("LocalVariableTypeTable");
    reveal_strlit("MethodParameters");
    reveal_strlit("Module");
    reveal_strlit("ModuleMainClass");
    reveal_strlit("ModulePackages");
    reveal_strlit("RuntimeVisibleAnnotations");
    reveal_strlit("RuntimeInvisibleAnnotations");
    reveal_strlit("RuntimeVisibleParameterAnnotations");
    reveal_strlit("RuntimeInvisibleParameterAnnotations");
    reveal_strlit("RuntimeVisibleTypeAnnotations");
    reveal_strlit("RuntimeInvisibleTypeAnnotations");
    reveal_strlit("SourceFile");
    reveal_strlit("Signature");
    reveal_strlit("StackMapTable");
    reveal_strlit("Synthetic");
    reveal_strlit("SourceDebugExtension");
}

} // verus!
