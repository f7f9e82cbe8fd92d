//! Records produced by the analyses: type errors, symbols, dependencies and
//! type tests.
use vstd::prelude::*;

use crate::chars::{join_strings, join_with, push_str, texts};
use crate::code_context::ScopeType;
use crate::span::SourceSpan;

verus! {

/// A type error found in a file.
#[derive(Clone, Debug)]
pub struct TypeError {
    pub id: String,
    pub message: String,
    pub file: String,
    pub line: usize,
    pub column: usize,
    /// `file::symbol`.
    pub scope: String,
    /// Plain-text code block shown when no code context is available.
    pub block: String,
    /// The code context around the error, when it could be extracted.
    pub source_code: Option<SourceCode>,
    pub span: SourceSpan,
}

/// The code context of a type error, as reported.
#[derive(Clone, Debug)]
pub struct SourceCode {
    pub full_code: String,
    pub display_code: String,
    pub scope_type: ScopeType,
    pub scope_name: String,
}

/// A declared symbol.
#[derive(Clone, Debug)]
pub struct SymbolInfo {
    pub name: String,
    pub kind: SymbolKind,
    pub file: String,
    pub start_line: usize,
    pub end_line: usize,
    pub exported: bool,
    pub parameters: Option<Vec<ParameterInfo>>,
    pub properties: Option<Vec<PropertyInfo>>,
    pub return_type: Option<String>,
    pub jsdoc: Option<String>,
}

#[derive(Clone, Copy, Debug, PartialEq, Eq, Structural)]
pub enum SymbolKind {
    Function,
    Class,
    Interface,
    Type,
    Variable,
    Enum,
}

#[derive(Clone, Debug)]
pub struct ParameterInfo {
    pub name: String,
    pub type_annotation: Option<String>,
    pub description: Option<String>,
}

#[derive(Clone, Debug)]
pub struct PropertyInfo {
    pub name: String,
    pub type_annotation: Option<String>,
    pub description: Option<String>,
}

#[derive(Clone, Debug)]
pub struct FileDependencies {
    pub file: String,
    pub repo_dependencies: Vec<String>,
    pub external_dependencies: Vec<String>,
}

#[derive(Clone, Debug)]
pub struct SymbolDependencies {
    pub symbol: String,
    pub file: String,
    pub dependencies: Vec<SymbolDependency>,
}

#[derive(Clone, Debug)]
pub struct SymbolDependency {
    pub name: String,
    pub scope: DependencyScope,
    pub file: Option<String>,
}

#[derive(Clone, Copy, Debug, PartialEq, Eq, Structural)]
pub enum DependencyScope {
    Local,
    Repo,
    Module,
    External,
}

#[derive(Clone, Debug)]
pub struct TypeTest {
    pub file: String,
    pub describe_block: String,
    pub test_name: String,
    pub line: usize,
    pub has_type_cases: bool,
    pub status: TestStatus,
}

#[derive(Clone, Copy, Debug, PartialEq, Eq, Structural)]
pub enum TestStatus {
    Passing,
    Failing,
    NoTypeCases,
}

/// `name: type`, or just `name` when there is no type.
pub open spec fn typed_name(name: Seq<char>, ty: Option<String>) -> Seq<char> {
    match ty {
        Some(t) => name + ": "@ + t@,
        None => name,
    }
}

pub open spec fn param_texts(ps: Seq<ParameterInfo>) -> Seq<Seq<char>> {
    ps.map_values(|p: ParameterInfo| typed_name(p.name@, p.type_annotation))
}

pub open spec fn property_texts(ps: Seq<PropertyInfo>) -> Seq<Seq<char>> {
    ps.map_values(|p: PropertyInfo| typed_name(p.name@, p.type_annotation))
}

/// The compact one-line signature of a symbol: parameters and return type
/// for functions, the first three properties for interfaces (`, ...` when
/// there are more), the kind and name otherwise.
pub open spec fn signature(s: SymbolInfo) -> Seq<char> {
    match s.kind {
        SymbolKind::Function => {
            let params = match s.parameters {
                Some(ps) => join_with(param_texts(ps@), ", "@),
                None => Seq::<char>::empty(),
            };
            match s.return_type {
                Some(ret) => "function "@ + s.name@ + "("@ + params + "): "@ + ret@,
                None => "function "@ + s.name@ + "("@ + params + ")"@,
            }
        },
        SymbolKind::Class => "class "@ + s.name@,
        SymbolKind::Interface => match s.properties {
            Some(ps) => if ps@.len() == 0 {
                "interface "@ + s.name@
            } else {
                let shown = join_with(property_texts(ps@.take(if ps@.len() > 3 { 3 } else { ps@.len() as int })), ", "@);
                let suffix = if ps@.len() > 3 {
                    ", ..."@
                } else {
                    Seq::<char>::empty()
                };
                "interface "@ + s.name@ + " { "@ + shown + suffix + " }"@
            },
            None => "interface "@ + s.name@,
        },
        SymbolKind::Type => "type "@ + s.name@,
        SymbolKind::Variable => "variable "@ + s.name@,
        SymbolKind::Enum => "enum "@ + s.name@,
    }
}

fn typed_name_text(name: &String, ty: &Option<String>) -> (r: String)
    ensures
        r@ == typed_name(name@, *ty),
{
    match ty {
        Some(t) => {
            let mut s = name.clone();
            push_str(&mut s, ": ");
            push_str(&mut s, t.as_str());
            s
        },
        None => name.clone(),
    }
}

fn param_list(ps: &Vec<ParameterInfo>) -> (r: String)
    ensures
        r@ == join_with(param_texts(ps@), ", "@),
{
    let mut parts: Vec<String> = Vec::new();
    let mut i: usize = 0;
    while i < ps.len()
        invariant
            i <= ps@.len(),
            texts(parts@) == param_texts(ps@.take(i as int)),
        decreases ps@.len() - i,
    {
        let ghost before = parts@;
        let t = typed_name_text(&ps[i].name, &ps[i].type_annotation);
        parts.push(t);
        assert(texts(parts@) =~= texts(before).push(t@));
        assert(param_texts(ps@.take(i + 1)) =~= param_texts(ps@.take(i as int)).push(
            typed_name(ps@[i as int].name@, ps@[i as int].type_annotation),
        ));
        i = i + 1;
    }
    assert(ps@.take(i as int) =~= ps@);
    join_strings(&parts, ", ")
}

fn property_list(ps: &Vec<PropertyInfo>, limit: usize) -> (r: String)
    requires
        limit <= ps@.len(),
    ensures
        r@ == join_with(property_texts(ps@.take(limit as int)), ", "@),
{
    let mut parts: Vec<String> = Vec::new();
    let mut i: usize = 0;
    while i < limit
        invariant
            i <= limit <= ps@.len(),
            texts(parts@) == property_texts(ps@.take(i as int)),
        decreases limit - i,
    {
        let ghost before = parts@;
        let t = typed_name_text(&ps[i].name, &ps[i].type_annotation);
        parts.push(t);
        assert(texts(parts@) =~= texts(before).push(t@));
        assert(property_texts(ps@.take(i + 1)) =~= property_texts(ps@.take(i as int)).push(
            typed_name(ps@[i as int].name@, ps@[i as int].type_annotation),
        ));
        i = i + 1;
    }
    join_strings(&parts, ", ")
}

fn prefixed(prefix: &str, name: &String) -> (r: String)
    ensures
        r@ == prefix@ + name@,
{
    let mut s = String::new();
    push_str(&mut s, prefix);
    push_str(&mut s, name.as_str());
    s
}

impl SymbolInfo {
    /// A compact one-line signature, such as
    /// `function createContext(name: string): Context` or
    /// `interface User { id: number, name: string }`.
    pub fn display_signature(&self) -> (r: String)
        ensures
            r@ == signature(*self),
    {
        match self.kind {
            SymbolKind::Function => {
                let params = match &self.parameters {
                    Some(ps) => param_list(ps),
                    None => String::new(),
                };
                let mut s = prefixed("function ", &self.name);
                push_str(&mut s, "(");
                push_str(&mut s, params.as_str());
                match &self.return_type {
                    Some(ret) => {
                        push_str(&mut s, "): ");
                        push_str(&mut s, ret.as_str());
                    },
                    None => {
                        push_str(&mut s, ")");
                    },
                }
                s
            },
            SymbolKind::Class => prefixed("class ", &self.name),
            SymbolKind::Interface => match &self.properties {
                Some(ps) => {
                    if ps.len() == 0 {
                        prefixed("interface ", &self.name)
                    } else {
                        let limit = if ps.len() > 3 {
                            3
                        } else {
                            ps.len()
                        };
                        let shown = property_list(ps, limit);
                        let mut s = prefixed("interface ", &self.name);
                        push_str(&mut s, " { ");
                        push_str(&mut s, shown.as_str());
                        if ps.len() > 3 {
                            push_str(&mut s, ", ...");
                        }
                        push_str(&mut s, " }");
                        s
                    }
                },
                None => prefixed("interface ", &self.name),
            },
            SymbolKind::Type => prefixed("type ", &self.name),
            SymbolKind::Variable => prefixed("variable ", &self.name),
            SymbolKind::Enum => prefixed("enum ", &self.name),
        }
    }
}

} // verus!
