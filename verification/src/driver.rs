//! The pass driver: which passes the command-line flags ask for, and the
//! gate that runs name analysis and type analysis in order.

use crate::ast::{decls_model, Declaration};
use crate::display::UnparseMode;
use crate::error::CompileError;
use crate::model;
use crate::name_analysis::{na_fresh_table, na_program};
use crate::type_analysis::spec_program_check;
use vstd::prelude::*;

verus! {

/// The compiler's command-line options.
#[allow(non_snake_case)]
#[derive(Debug, PartialEq)]
pub struct Args {
    /// File to compile
    pub input_file: String,
    /// Parse
    pub parse: bool,
    /// Unparse
    pub unparse: Option<String>,
    /// Named unparse
    pub named_unparse: Option<String>,
    /// Do type checking without output
    pub check_types: bool,
    /// Generate 3AC intermediate code
    pub ac3_IR_generation: Option<String>,
    /// Generate x64 assembly
    pub output_assembly: Option<String>,
}

/// Why a build stops early.
#[derive(Debug, PartialEq)]
pub enum BuildFailure {
    /// No pass was requested, so nothing was ever parsed.
    NeverParsed,
    /// Name analysis failed, with every collected error in order.
    NameErrors(Vec<CompileError>),
    /// Type analysis failed, with one error per failing declaration.
    TypeErrors(Vec<CompileError>),
}

/// Which unparse artifact the flags ask for; a plain unparse wins over a
/// named one when both are given.
pub open spec fn spec_unparse_mode(
    unparse: Option<Seq<char>>,
    named_unparse: Option<Seq<char>>,
) -> model::UnparseMode {
    match (unparse, named_unparse) {
        (Option::None, Option::None) => model::UnparseMode::Off,
        (Option::Some(path), _) => model::UnparseMode::Normal(path),
        (_, Option::Some(path)) => model::UnparseMode::Named(path),
    }
}

impl Args {
    /// Whether type analysis must run.
    pub open spec fn spec_should_type_check(&self) -> bool {
        self.check_types || self.ac3_IR_generation is Some || self.output_assembly is Some
    }

    /// Whether name analysis must run.
    pub open spec fn spec_should_name_check(&self) -> bool {
        self.spec_should_type_check() || self.named_unparse is Some
    }

    /// Whether anything must run at all.
    pub open spec fn spec_should_parse(&self) -> bool {
        self.spec_should_name_check() || self.parse || self.unparse is Some
    }
}

/// Which unparse artifact the flags ask for.
pub fn get_unparse_mode(args: &Args) -> (r: UnparseMode)
    ensures
        crate::display::unparse_mode_model(r) == spec_unparse_mode(
            match args.unparse {
                Option::Some(ref p) => Option::Some(p@),
                Option::None => Option::None,
            },
            match args.named_unparse {
                Option::Some(ref p) => Option::Some(p@),
                Option::None => Option::None,
            },
        ),
{
    match (&args.unparse, &args.named_unparse) {
        (None, None) => UnparseMode::Off,
        (Some(path), _) => UnparseMode::Normal(path.clone()),
        (_, Some(path)) => UnparseMode::Named(path.clone()),
    }
}

/// What `build` leaves behind for the requested passes: the analyzed
/// program, or the first failure in pass order.
pub open spec fn spec_build(ds: Seq<model::Declaration>, args: Args) -> Result<
    Seq<model::Declaration>,
    model::BuildFailure,
> {
    if !args.spec_should_parse() {
        Result::Err(model::BuildFailure::NeverParsed)
    } else if !args.spec_should_name_check() {
        Result::Ok(ds)
    } else {
        let (rs, errs, _) = na_program(ds, na_fresh_table());
        if errs.len() > 0 {
            Result::Err(model::BuildFailure::NameErrors(errs))
        } else if !args.spec_should_type_check() {
            Result::Ok(rs)
        } else {
            let terrs = spec_program_check(rs);
            if terrs.len() > 0 {
                Result::Err(model::BuildFailure::TypeErrors(terrs))
            } else {
                Result::Ok(rs)
            }
        }
    }
}

/// The model of a build failure.
pub open spec fn build_failure_model(f: BuildFailure) -> model::BuildFailure {
    match f {
        BuildFailure::NeverParsed => model::BuildFailure::NeverParsed,
        BuildFailure::NameErrors(es) => model::BuildFailure::NameErrors(es@),
        BuildFailure::TypeErrors(es) => model::BuildFailure::TypeErrors(es@),
    }
}

/// Runs the passes the flags ask for, in order: name analysis, then type
/// analysis, each gated on the one before.
pub fn build(ast: Vec<Declaration>, args: &Args) -> (r: Result<Vec<Declaration>, BuildFailure>)
    ensures
        match r {
            Result::Ok(ds) => spec_build(decls_model(ast@), *args) == Result::<
                Seq<model::Declaration>,
                model::BuildFailure,
            >::Ok(decls_model(ds@)),
            Result::Err(f) => spec_build(decls_model(ast@), *args) == Result::<
                Seq<model::Declaration>,
                model::BuildFailure,
            >::Err(build_failure_model(f)),
        },
{
    let should_type_check = args.check_types || args.ac3_IR_generation.is_some()
        || args.output_assembly.is_some();
    let should_name_check = should_type_check || args.named_unparse.is_some();
    let should_parse = should_name_check || args.parse || args.unparse.is_some();
    if !should_parse {
        return Err(BuildFailure::NeverParsed);
    }
    if !should_name_check {
        return Ok(ast);
    }
    let analyzed = match crate::name_analysis::analyze(&ast) {
        Ok(ds) => ds,
        Err(errs) => {
            return Err(BuildFailure::NameErrors(errs));
        },
    };
    if !should_type_check {
        return Ok(analyzed);
    }
    match crate::type_analysis::check_types(&analyzed) {
        Ok(()) => Ok(analyzed),
        Err(errs) => Err(BuildFailure::TypeErrors(errs)),
    }
}

} // verus!
