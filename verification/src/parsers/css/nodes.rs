//! The syntax tree of a stylesheet, as the parser builds it.
//!
//! The nodes that the transformations read are declared with their fields;
//! every other node is carried through as an opaque value.

use vstd::prelude::*;

verus! {

// Nodes whose fields and variants the verifier sees.

#[verifier::external_type_specification]
pub struct ExStylesheet(swc_css_ast::Stylesheet);

#[verifier::external_type_specification]
pub struct ExRule(swc_css_ast::Rule);

#[verifier::external_type_specification]
pub struct ExAtRule(swc_css_ast::AtRule);

#[verifier::external_type_specification]
pub struct ExAtRuleName(swc_css_ast::AtRuleName);

#[verifier::external_type_specification]
pub struct ExAtRulePrelude(swc_css_ast::AtRulePrelude);

#[verifier::external_type_specification]
pub struct ExImportPrelude(swc_css_ast::ImportPrelude);

#[verifier::external_type_specification]
pub struct ExImportHref(swc_css_ast::ImportHref);

#[verifier::external_type_specification]
pub struct ExUrl(swc_css_ast::Url);

#[verifier::external_type_specification]
pub struct ExUrlValue(swc_css_ast::UrlValue);

#[verifier::external_type_specification]
pub struct ExStr(swc_css_ast::Str);

#[verifier::external_type_specification]
pub struct ExIdent(swc_css_ast::Ident);

#[verifier::external_type_specification]
pub struct ExDashedIdent(swc_css_ast::DashedIdent);

#[verifier::external_type_specification]
pub struct ExQualifiedRule(swc_css_ast::QualifiedRule);

#[verifier::external_type_specification]
pub struct ExListOfComponentValues(swc_css_ast::ListOfComponentValues);

#[verifier::external_type_specification]
pub struct ExDeclaration(swc_css_ast::Declaration);

#[verifier::external_type_specification]
pub struct ExDeclarationName(swc_css_ast::DeclarationName);

#[verifier::external_type_specification]
pub struct ExPseudoElementSelector(swc_css_ast::PseudoElementSelector);

#[verifier::external_type_specification]
pub struct ExPseudoClassSelector(swc_css_ast::PseudoClassSelector);

// Nodes that are only carried through.

#[verifier::external_type_specification]
#[verifier::external_body]
pub struct ExQualifiedRulePrelude(swc_css_ast::QualifiedRulePrelude);

#[verifier::external_type_specification]
#[verifier::external_body]
pub struct ExSimpleBlock(swc_css_ast::SimpleBlock);

#[verifier::external_type_specification]
#[verifier::external_body]
pub struct ExComponentValue(swc_css_ast::ComponentValue);

#[verifier::external_type_specification]
#[verifier::external_body]
pub struct ExImportantFlag(swc_css_ast::ImportantFlag);

#[verifier::external_type_specification]
#[verifier::external_body]
pub struct ExCustomPropertyName(swc_css_ast::CustomPropertyName);

#[verifier::external_type_specification]
#[verifier::external_body]
pub struct ExCustomIdent(swc_css_ast::CustomIdent);

#[verifier::external_type_specification]
#[verifier::external_body]
pub struct ExColorProfileName(swc_css_ast::ColorProfileName);

#[verifier::external_type_specification]
#[verifier::external_body]
pub struct ExDocumentPrelude(swc_css_ast::DocumentPrelude);

#[verifier::external_type_specification]
#[verifier::external_body]
pub struct ExFontFeatureValuesPrelude(swc_css_ast::FontFeatureValuesPrelude);

#[verifier::external_type_specification]
#[verifier::external_body]
pub struct ExSelectorList(swc_css_ast::SelectorList);

#[verifier::external_type_specification]
#[verifier::external_body]
pub struct ExKeyframesName(swc_css_ast::KeyframesName);

#[verifier::external_type_specification]
#[verifier::external_body]
pub struct ExNamespacePrelude(swc_css_ast::NamespacePrelude);

#[verifier::external_type_specification]
#[verifier::external_body]
pub struct ExMediaQueryList(swc_css_ast::MediaQueryList);

#[verifier::external_type_specification]
#[verifier::external_body]
pub struct ExSupportsCondition(swc_css_ast::SupportsCondition);

#[verifier::external_type_specification]
#[verifier::external_body]
pub struct ExPageSelectorList(swc_css_ast::PageSelectorList);

#[verifier::external_type_specification]
#[verifier::external_body]
pub struct ExLayerPrelude(swc_css_ast::LayerPrelude);

#[verifier::external_type_specification]
#[verifier::external_body]
pub struct ExContainerCondition(swc_css_ast::ContainerCondition);

#[verifier::external_type_specification]
#[verifier::external_body]
pub struct ExCustomMediaQuery(swc_css_ast::CustomMediaQuery);

#[verifier::external_type_specification]
#[verifier::external_body]
pub struct ExScopeRange(swc_css_ast::ScopeRange);

#[verifier::external_type_specification]
#[verifier::external_body]
pub struct ExImportLayerName(swc_css_ast::ImportLayerName);

#[verifier::external_type_specification]
#[verifier::external_body]
pub struct ExImportConditions(swc_css_ast::ImportConditions);

#[verifier::external_type_specification]
#[verifier::external_body]
pub struct ExUrlValueRaw(swc_css_ast::UrlValueRaw);

#[verifier::external_type_specification]
#[verifier::external_body]
pub struct ExUrlModifier(swc_css_ast::UrlModifier);

#[verifier::external_type_specification]
#[verifier::external_body]
pub struct ExPseudoElementSelectorChildren(swc_css_ast::PseudoElementSelectorChildren);

#[verifier::external_type_specification]
#[verifier::external_body]
pub struct ExPseudoClassSelectorChildren(swc_css_ast::PseudoClassSelectorChildren);

} // verus!
