//! The syntax tree of a JavaScript module, as the parser builds it.
//!
//! The nodes that the transformations read are declared with their fields, so
//! that contracts can speak of a tree's shape directly. Every other node is
//! carried through as an opaque value.

use vstd::prelude::*;

verus! {

// Nodes whose fields and variants the verifier sees.

#[verifier::external_type_specification]
pub struct ExModule(swc_ecma_ast::Module);

#[verifier::external_type_specification]
pub struct ExModuleItem(swc_ecma_ast::ModuleItem);

#[verifier::external_type_specification]
pub struct ExModuleDecl(swc_ecma_ast::ModuleDecl);

#[verifier::external_type_specification]
pub struct ExImportDecl(swc_ecma_ast::ImportDecl);

#[verifier::external_type_specification]
pub struct ExImportSpecifier(swc_ecma_ast::ImportSpecifier);

#[verifier::external_type_specification]
pub struct ExImportNamedSpecifier(swc_ecma_ast::ImportNamedSpecifier);

#[verifier::external_type_specification]
pub struct ExImportDefaultSpecifier(swc_ecma_ast::ImportDefaultSpecifier);

#[verifier::external_type_specification]
pub struct ExImportStarAsSpecifier(swc_ecma_ast::ImportStarAsSpecifier);

#[verifier::external_type_specification]
pub struct ExStr(swc_ecma_ast::Str);

#[verifier::external_type_specification]
pub struct ExStmt(swc_ecma_ast::Stmt);

#[verifier::external_type_specification]
pub struct ExDecl(swc_ecma_ast::Decl);

#[verifier::external_type_specification]
pub struct ExVarDecl(swc_ecma_ast::VarDecl);

#[verifier::external_type_specification]
pub struct ExVarDeclKind(swc_ecma_ast::VarDeclKind);

#[verifier::external_type_specification]
pub struct ExVarDeclarator(swc_ecma_ast::VarDeclarator);

#[verifier::external_type_specification]
pub struct ExPat(swc_ecma_ast::Pat);

#[verifier::external_type_specification]
pub struct ExBindingIdent(swc_ecma_ast::BindingIdent);

#[verifier::external_type_specification]
pub struct ExIdent(swc_ecma_ast::Ident);

#[verifier::external_type_specification]
pub struct ExIdentName(swc_ecma_ast::IdentName);

#[verifier::external_type_specification]
pub struct ExExpr(swc_ecma_ast::Expr);

#[verifier::external_type_specification]
pub struct ExObjectLit(swc_ecma_ast::ObjectLit);

#[verifier::external_type_specification]
pub struct ExPropOrSpread(swc_ecma_ast::PropOrSpread);

#[verifier::external_type_specification]
pub struct ExSpreadElement(swc_ecma_ast::SpreadElement);

#[verifier::external_type_specification]
pub struct ExProp(swc_ecma_ast::Prop);

#[verifier::external_type_specification]
pub struct ExKeyValueProp(swc_ecma_ast::KeyValueProp);

#[verifier::external_type_specification]
pub struct ExPropName(swc_ecma_ast::PropName);

#[verifier::external_type_specification]
pub struct ExNewExpr(swc_ecma_ast::NewExpr);

#[verifier::external_type_specification]
pub struct ExExprOrSpread(swc_ecma_ast::ExprOrSpread);

// Nodes that are only carried through.

#[verifier::external_type_specification]
#[verifier::external_body]
pub struct ExImportPhase(swc_ecma_ast::ImportPhase);

#[verifier::external_type_specification]
#[verifier::external_body]
pub struct ExModuleExportName(swc_ecma_ast::ModuleExportName);

#[verifier::external_type_specification]
#[verifier::external_body]
pub struct ExExportDecl(swc_ecma_ast::ExportDecl);

#[verifier::external_type_specification]
#[verifier::external_body]
pub struct ExNamedExport(swc_ecma_ast::NamedExport);

#[verifier::external_type_specification]
#[verifier::external_body]
pub struct ExExportDefaultDecl(swc_ecma_ast::ExportDefaultDecl);

#[verifier::external_type_specification]
#[verifier::external_body]
pub struct ExExportDefaultExpr(swc_ecma_ast::ExportDefaultExpr);

#[verifier::external_type_specification]
#[verifier::external_body]
pub struct ExExportAll(swc_ecma_ast::ExportAll);

#[verifier::external_type_specification]
#[verifier::external_body]
pub struct ExTsImportEqualsDecl(swc_ecma_ast::TsImportEqualsDecl);

#[verifier::external_type_specification]
#[verifier::external_body]
pub struct ExTsExportAssignment(swc_ecma_ast::TsExportAssignment);

#[verifier::external_type_specification]
#[verifier::external_body]
pub struct ExTsNamespaceExportDecl(swc_ecma_ast::TsNamespaceExportDecl);

#[verifier::external_type_specification]
#[verifier::external_body]
pub struct ExBlockStmt(swc_ecma_ast::BlockStmt);

#[verifier::external_type_specification]
#[verifier::external_body]
pub struct ExEmptyStmt(swc_ecma_ast::EmptyStmt);

#[verifier::external_type_specification]
#[verifier::external_body]
pub struct ExDebuggerStmt(swc_ecma_ast::DebuggerStmt);

#[verifier::external_type_specification]
#[verifier::external_body]
pub struct ExWithStmt(swc_ecma_ast::WithStmt);

#[verifier::external_type_specification]
#[verifier::external_body]
pub struct ExReturnStmt(swc_ecma_ast::ReturnStmt);

#[verifier::external_type_specification]
#[verifier::external_body]
pub struct ExLabeledStmt(swc_ecma_ast::LabeledStmt);

#[verifier::external_type_specification]
#[verifier::external_body]
pub struct ExBreakStmt(swc_ecma_ast::BreakStmt);

#[verifier::external_type_specification]
#[verifier::external_body]
pub struct ExContinueStmt(swc_ecma_ast::ContinueStmt);

#[verifier::external_type_specification]
#[verifier::external_body]
pub struct ExIfStmt(swc_ecma_ast::IfStmt);

#[verifier::external_type_specification]
#[verifier::external_body]
pub struct ExSwitchStmt(swc_ecma_ast::SwitchStmt);

#[verifier::external_type_specification]
#[verifier::external_body]
pub struct ExThrowStmt(swc_ecma_ast::ThrowStmt);

#[verifier::external_type_specification]
#[verifier::external_body]
pub struct ExTryStmt(swc_ecma_ast::TryStmt);

#[verifier::external_type_specification]
#[verifier::external_body]
pub struct ExWhileStmt(swc_ecma_ast::WhileStmt);

#[verifier::external_type_specification]
#[verifier::external_body]
pub struct ExDoWhileStmt(swc_ecma_ast::DoWhileStmt);

#[verifier::external_type_specification]
#[verifier::external_body]
pub struct ExForStmt(swc_ecma_ast::ForStmt);

#[verifier::external_type_specification]
#[verifier::external_body]
pub struct ExForInStmt(swc_ecma_ast::ForInStmt);

#[verifier::external_type_specification]
#[verifier::external_body]
pub struct ExForOfStmt(swc_ecma_ast::ForOfStmt);

#[verifier::external_type_specification]
#[verifier::external_body]
pub struct ExExprStmt(swc_ecma_ast::ExprStmt);

#[verifier::external_type_specification]
#[verifier::external_body]
pub struct ExClassDecl(swc_ecma_ast::ClassDecl);

#[verifier::external_type_specification]
#[verifier::external_body]
pub struct ExFnDecl(swc_ecma_ast::FnDecl);

#[verifier::external_type_specification]
#[verifier::external_body]
pub struct ExUsingDecl(swc_ecma_ast::UsingDecl);

#[verifier::external_type_specification]
#[verifier::external_body]
pub struct ExTsInterfaceDecl(swc_ecma_ast::TsInterfaceDecl);

#[verifier::external_type_specification]
#[verifier::external_body]
pub struct ExTsTypeAliasDecl(swc_ecma_ast::TsTypeAliasDecl);

#[verifier::external_type_specification]
#[verifier::external_body]
pub struct ExTsEnumDecl(swc_ecma_ast::TsEnumDecl);

#[verifier::external_type_specification]
#[verifier::external_body]
pub struct ExTsModuleDecl(swc_ecma_ast::TsModuleDecl);

#[verifier::external_type_specification]
#[verifier::external_body]
pub struct ExArrayPat(swc_ecma_ast::ArrayPat);

#[verifier::external_type_specification]
#[verifier::external_body]
pub struct ExRestPat(swc_ecma_ast::RestPat);

#[verifier::external_type_specification]
#[verifier::external_body]
pub struct ExObjectPat(swc_ecma_ast::ObjectPat);

#[verifier::external_type_specification]
#[verifier::external_body]
pub struct ExAssignPat(swc_ecma_ast::AssignPat);

#[verifier::external_type_specification]
#[verifier::external_body]
pub struct ExInvalid(swc_ecma_ast::Invalid);

#[verifier::external_type_specification]
#[verifier::external_body]
pub struct ExTsTypeAnn(swc_ecma_ast::TsTypeAnn);

#[verifier::external_type_specification]
#[verifier::external_body]
pub struct ExThisExpr(swc_ecma_ast::ThisExpr);

#[verifier::external_type_specification]
#[verifier::external_body]
pub struct ExArrayLit(swc_ecma_ast::ArrayLit);

#[verifier::external_type_specification]
#[verifier::external_body]
pub struct ExFnExpr(swc_ecma_ast::FnExpr);

#[verifier::external_type_specification]
#[verifier::external_body]
pub struct ExUnaryExpr(swc_ecma_ast::UnaryExpr);

#[verifier::external_type_specification]
#[verifier::external_body]
pub struct ExUpdateExpr(swc_ecma_ast::UpdateExpr);

#[verifier::external_type_specification]
#[verifier::external_body]
pub struct ExBinExpr(swc_ecma_ast::BinExpr);

#[verifier::external_type_specification]
#[verifier::external_body]
pub struct ExAssignExpr(swc_ecma_ast::AssignExpr);

#[verifier::external_type_specification]
#[verifier::external_body]
pub struct ExMemberExpr(swc_ecma_ast::MemberExpr);

#[verifier::external_type_specification]
#[verifier::external_body]
pub struct ExSuperPropExpr(swc_ecma_ast::SuperPropExpr);

#[verifier::external_type_specification]
#[verifier::external_body]
pub struct ExCondExpr(swc_ecma_ast::CondExpr);

#[verifier::external_type_specification]
#[verifier::external_body]
pub struct ExCallExpr(swc_ecma_ast::CallExpr);

#[verifier::external_type_specification]
#[verifier::external_body]
pub struct ExSeqExpr(swc_ecma_ast::SeqExpr);

#[verifier::external_type_specification]
#[verifier::external_body]
pub struct ExLit(swc_ecma_ast::Lit);

#[verifier::external_type_specification]
#[verifier::external_body]
pub struct ExTpl(swc_ecma_ast::Tpl);

#[verifier::external_type_specification]
#[verifier::external_body]
pub struct ExTaggedTpl(swc_ecma_ast::TaggedTpl);

#[verifier::external_type_specification]
#[verifier::external_body]
pub struct ExArrowExpr(swc_ecma_ast::ArrowExpr);

#[verifier::external_type_specification]
#[verifier::external_body]
pub struct ExClassExpr(swc_ecma_ast::ClassExpr);

#[verifier::external_type_specification]
#[verifier::external_body]
pub struct ExYieldExpr(swc_ecma_ast::YieldExpr);

#[verifier::external_type_specification]
#[verifier::external_body]
pub struct ExMetaPropExpr(swc_ecma_ast::MetaPropExpr);

#[verifier::external_type_specification]
#[verifier::external_body]
pub struct ExAwaitExpr(swc_ecma_ast::AwaitExpr);

#[verifier::external_type_specification]
#[verifier::external_body]
pub struct ExParenExpr(swc_ecma_ast::ParenExpr);

#[verifier::external_type_specification]
#[verifier::external_body]
pub struct ExJSXMemberExpr(swc_ecma_ast::JSXMemberExpr);

#[verifier::external_type_specification]
#[verifier::external_body]
pub struct ExJSXNamespacedName(swc_ecma_ast::JSXNamespacedName);

#[verifier::external_type_specification]
#[verifier::external_body]
pub struct ExJSXEmptyExpr(swc_ecma_ast::JSXEmptyExpr);

#[verifier::external_type_specification]
#[verifier::external_body]
pub struct ExJSXElement(swc_ecma_ast::JSXElement);

#[verifier::external_type_specification]
#[verifier::external_body]
pub struct ExJSXFragment(swc_ecma_ast::JSXFragment);

#[verifier::external_type_specification]
#[verifier::external_body]
pub struct ExTsTypeAssertion(swc_ecma_ast::TsTypeAssertion);

#[verifier::external_type_specification]
#[verifier::external_body]
pub struct ExTsConstAssertion(swc_ecma_ast::TsConstAssertion);

#[verifier::external_type_specification]
#[verifier::external_body]
pub struct ExTsNonNullExpr(swc_ecma_ast::TsNonNullExpr);

#[verifier::external_type_specification]
#[verifier::external_body]
pub struct ExTsAsExpr(swc_ecma_ast::TsAsExpr);

#[verifier::external_type_specification]
#[verifier::external_body]
pub struct ExTsInstantiation(swc_ecma_ast::TsInstantiation);

#[verifier::external_type_specification]
#[verifier::external_body]
pub struct ExTsSatisfiesExpr(swc_ecma_ast::TsSatisfiesExpr);

#[verifier::external_type_specification]
#[verifier::external_body]
pub struct ExPrivateName(swc_ecma_ast::PrivateName);

#[verifier::external_type_specification]
#[verifier::external_body]
pub struct ExOptChainExpr(swc_ecma_ast::OptChainExpr);

#[verifier::external_type_specification]
#[verifier::external_body]
pub struct ExAssignProp(swc_ecma_ast::AssignProp);

#[verifier::external_type_specification]
#[verifier::external_body]
pub struct ExGetterProp(swc_ecma_ast::GetterProp);

#[verifier::external_type_specification]
#[verifier::external_body]
pub struct ExSetterProp(swc_ecma_ast::SetterProp);

#[verifier::external_type_specification]
#[verifier::external_body]
pub struct ExMethodProp(swc_ecma_ast::MethodProp);

#[verifier::external_type_specification]
#[verifier::external_body]
pub struct ExNumber(swc_ecma_ast::Number);

#[verifier::external_type_specification]
#[verifier::external_body]
pub struct ExComputedPropName(swc_ecma_ast::ComputedPropName);

#[verifier::external_type_specification]
#[verifier::external_body]
pub struct ExBigInt(swc_ecma_ast::BigInt);

#[verifier::external_type_specification]
#[verifier::external_body]
pub struct ExTsTypeParamInstantiation(swc_ecma_ast::TsTypeParamInstantiation);

#[verifier::external_type_specification]
#[verifier::external_body]
pub struct ExFunction(swc_ecma_ast::Function);

#[verifier::external_type_specification]
#[verifier::external_body]
pub struct ExClass(swc_ecma_ast::Class);

} // verus!
