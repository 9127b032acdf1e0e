//! The names of the kinds of nodes in a syntax tree.

use vstd::prelude::*;

verus! {

/// What tells the names of the kinds of nodes apart: their lengths, and, among names of one
/// length, some of their characters.
pub proof fn lemma_type_names()
    ensures
        "Literal"@.len() == 7,
        "Property"@.len() == 8,
        "Identifier"@.len() == 10,
        "Identifier"@[0] == 'I',
        "JSXElement"@.len() == 10,
        "JSXElement"@[0] == 'J',
        "IfStatement"@.len() == 11,
        "IfStatement"@[0] == 'I',
        "JSXFragment"@.len() == 11,
        "JSXFragment"@[0] == 'J',
        "ForStatement"@.len() == 12,
        "ForStatement"@[0] == 'F',
        "JSXAttribute"@.len() == 12,
        "JSXAttribute"@[0] == 'J',
        "TryStatement"@.len() == 12,
        "TryStatement"@[0] == 'T',
        "JSXIdentifier"@.len() == 13,
        "JSXIdentifier"@[0] == 'J',
        "NewExpression"@.len() == 13,
        "NewExpression"@[0] == 'N',
        "SpreadElement"@.len() == 13,
        "SpreadElement"@[0] == 'S',
        "BlockStatement"@.len() == 14,
        "BlockStatement"@[3] == 'c',
        "BlockStatement"@[0] == 'B',
        "CallExpression"@.len() == 14,
        "CallExpression"@[3] == 'l',
        "CallExpression"@[0] == 'C',
        "ForInStatement"@.len() == 14,
        "ForInStatement"@[3] == 'I',
        "ForInStatement"@[0] == 'F',
        "ForOfStatement"@.len() == 14,
        "ForOfStatement"@[3] == 'O',
        "ForOfStatement"@[0] == 'F',
        "TSAsExpression"@.len() == 14,
        "TSAsExpression"@[3] == 's',
        "TSAsExpression"@[0] == 'T',
        "ThrowStatement"@.len() == 14,
        "ThrowStatement"@[3] == 'o',
        "ThrowStatement"@[0] == 'T',
        "WhileStatement"@.len() == 14,
        "WhileStatement"@[3] == 'l',
        "WhileStatement"@[0] == 'W',
        "ArrayExpression"@.len() == 15,
        "ArrayExpression"@[3] == 'a',
        "ArrayExpression"@[0] == 'A',
        "AwaitExpression"@.len() == 15,
        "AwaitExpression"@[3] == 'i',
        "AwaitExpression"@[0] == 'A',
        "ChainExpression"@.len() == 15,
        "ChainExpression"@[3] == 'i',
        "ChainExpression"@[0] == 'C',
        "ClassExpression"@.len() == 15,
        "ClassExpression"@[3] == 's',
        "ClassExpression"@[0] == 'C',
        "ReturnStatement"@.len() == 15,
        "ReturnStatement"@[3] == 'u',
        "ReturnStatement"@[0] == 'R',
        "SwitchStatement"@.len() == 15,
        "SwitchStatement"@[3] == 't',
        "SwitchStatement"@[0] == 'S',
        "TSTypeAssertion"@.len() == 15,
        "TSTypeAssertion"@[3] == 'y',
        "TSTypeAssertion"@[0] == 'T',
        "TemplateLiteral"@.len() == 15,
        "TemplateLiteral"@[3] == 'p',
        "TemplateLiteral"@[0] == 'T',
        "UnaryExpression"@.len() == 15,
        "UnaryExpression"@[3] == 'r',
        "UnaryExpression"@[0] == 'U',
        "YieldExpression"@.len() == 15,
        "YieldExpression"@[3] == 'l',
        "YieldExpression"@[0] == 'Y',
        "BinaryExpression"@.len() == 16,
        "BinaryExpression"@[2] == 'n',
        "ClassDeclaration"@.len() == 16,
        "ClassDeclaration"@[2] == 'a',
        "DoWhileStatement"@.len() == 16,
        "DoWhileStatement"@[2] == 'W',
        "LabeledStatement"@.len() == 16,
        "LabeledStatement"@[2] == 'b',
        "MemberExpression"@.len() == 16,
        "MemberExpression"@[2] == 'm',
        "MethodDefinition"@.len() == 16,
        "MethodDefinition"@[2] == 't',
        "ObjectExpression"@.len() == 16,
        "ObjectExpression"@[2] == 'j',
        "JSXNamespacedName"@.len() == 17,
        "JSXNamespacedName"@[0] == 'J',
        "LogicalExpression"@.len() == 17,
        "LogicalExpression"@[0] == 'L',
        "PrivateIdentifier"@.len() == 17,
        "PrivateIdentifier"@[0] == 'P',
        "TSDeclareFunction"@.len() == 17,
        "TSDeclareFunction"@[0] == 'T',
        "FunctionExpression"@.len() == 18,
        "FunctionExpression"@[0] == 'F',
        "JSXSpreadAttribute"@.len() == 18,
        "JSXSpreadAttribute"@[0] == 'J',
        "PropertyDefinition"@.len() == 18,
        "PropertyDefinition"@[0] == 'P',
        "SequenceExpression"@.len() == 18,
        "SequenceExpression"@[0] == 'S',
        "ExpressionStatement"@.len() == 19,
        "ExpressionStatement"@[0] == 'E',
        "FunctionDeclaration"@.len() == 19,
        "FunctionDeclaration"@[0] == 'F',
        "JSXMemberExpression"@.len() == 19,
        "JSXMemberExpression"@[0] == 'J',
        "TSNonNullExpression"@.len() == 19,
        "TSNonNullExpression"@[0] == 'T',
        "VariableDeclaration"@.len() == 19,
        "VariableDeclaration"@[0] == 'V',
        "AssignmentExpression"@.len() == 20,
        "ConditionalExpression"@.len() == 21,
        "ConditionalExpression"@[0] == 'C',
        "TSSatisfiesExpression"@.len() == 21,
        "TSSatisfiesExpression"@[0] == 'T',
        "ExportNamedDeclaration"@.len() == 22,
        "ExportNamedDeclaration"@[0] == 'E',
        "JSXExpressionContainer"@.len() == 22,
        "JSXExpressionContainer"@[0] == 'J',
        "ArrowFunctionExpression"@.len() == 23,
        "ArrowFunctionExpression"@[0] == 'A',
        "ParenthesizedExpression"@.len() == 23,
        "ParenthesizedExpression"@[0] == 'P',
        "ExportDefaultDeclaration"@.len() == 24,
        "ExportDefaultDeclaration"@[0] == 'E',
        "TaggedTemplateExpression"@.len() == 24,
        "TaggedTemplateExpression"@[0] == 'T',
        "TSAbstractMethodDefinition"@.len() == 26,
        "TSAbstractPropertyDefinition"@.len() == 28,
{
    reveal_strlit("Literal");
    reveal_strlit("Property");
    reveal_strlit("Identifier");
    reveal_strlit("JSXElement");
    reveal_strlit("IfStatement");
    reveal_strlit("JSXFragment");
    reveal_strlit("ForStatement");
    reveal_strlit("JSXAttribute");
    reveal_strlit("TryStatement");
    reveal_strlit("JSXIdentifier");
    reveal_strlit("NewExpression");
    reveal_strlit("SpreadElement");
    reveal_strlit("BlockStatement");
    reveal_strlit("CallExpression");
    reveal_strlit("ForInStatement");
    reveal_strlit("ForOfStatement");
    reveal_strlit("TSAsExpression");
    reveal_strlit("ThrowStatement");
    reveal_strlit("WhileStatement");
    reveal_strlit("ArrayExpression");
    reveal_strlit("AwaitExpression");
    reveal_strlit("ChainExpression");
    reveal_strlit("ClassExpression");
    reveal_strlit("ReturnStatement");
    reveal_strlit("SwitchStatement");
    reveal_strlit("TSTypeAssertion");
    reveal_strlit("TemplateLiteral");
    reveal_strlit("UnaryExpression");
    reveal_strlit("YieldExpression");
    reveal_strlit("BinaryExpression");
    reveal_strlit("ClassDeclaration");
    reveal_strlit("DoWhileStatement");
    reveal_strlit("LabeledStatement");
    reveal_strlit("MemberExpression");
    reveal_strlit("MethodDefinition");
    reveal_strlit("ObjectExpression");
    reveal_strlit("JSXNamespacedName");
    reveal_strlit("LogicalExpression");
    reveal_strlit("PrivateIdentifier");
    reveal_strlit("TSDeclareFunction");
    reveal_strlit("FunctionExpression");
    reveal_strlit("JSXSpreadAttribute");
    reveal_strlit("PropertyDefinition");
    reveal_strlit("SequenceExpression");
    reveal_strlit("ExpressionStatement");
    reveal_strlit("FunctionDeclaration");
    reveal_strlit("JSXMemberExpression");
    reveal_strlit("TSNonNullExpression");
    reveal_strlit("VariableDeclaration");
    reveal_strlit("AssignmentExpression");
    reveal_strlit("ConditionalExpression");
    reveal_strlit("TSSatisfiesExpression");
    reveal_strlit("ExportNamedDeclaration");
    reveal_strlit("JSXExpressionContainer");
    reveal_strlit("ArrowFunctionExpression");
    reveal_strlit("ParenthesizedExpression");
    reveal_strlit("ExportDefaultDeclaration");
    reveal_strlit("TaggedTemplateExpression");
    reveal_strlit("TSAbstractMethodDefinition");
    reveal_strlit("TSAbstractPropertyDefinition");
}

} // verus!
