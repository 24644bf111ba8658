//! Diagnostics and the collector that gathers them.

use crate::data::location::Locatable;
use crate::data::location::Location;
use crate::ir::builder::Block;
use std::collections::VecDeque;
use vstd::prelude::*;
use vstd::std_specs::convert::FromSpecImpl;
use vstd::std_specs::convert::IntoSpec;

verus! {

/// A result that still carries a usable value when it fails.
pub type RecoverableResult<T, E = CompileError> = Result<T, (E, T)>;

pub type CompileResult<T> = Result<T, CompileError>;

pub type CompileError = Locatable<Error>;

pub type CompileWarning = Locatable<Warning>;

/// `From::from` from a type to itself: std documents that it returns its
/// argument.
pub assume_specification<Same>[ <Same as core::convert::From<Same>>::from ](value: Same) -> (r: Same)
    ensures
        r == value,
;

/// What went wrong, by the phase that found it.
#[derive(Clone, Debug, PartialEq)]
#[non_exhaustive]
pub enum Error {
    Semantic(SemanticError),
    Syntax(SyntaxError),
    PreProcessor(CppError),
    Lex(LexError),
}

/// What semantic analysis and the lowerer diagnose.
#[derive(Clone, Debug, PartialEq)]
#[non_exhaustive]
pub enum SemanticError {
    Generic(String),
    EmptyProgram,
    UndeclaredVar(String),
    ConstOverflow { is_positive: bool },
    /// Carries the expression, rendered.
    NotConstant(String),
    /// Carries the reason why it cannot be assigned to.
    NotAssignable(String),
    InvalidAddressOf(&'static str),
    DivideByZero,
    NegativeShift { is_left: bool },
    /// Carries the type, rendered.
    TooManyShiftBits { is_left: bool, maximum: u64, ctype: String, current: u64 },
    UnreachableStatement,
    /// Carries the block that the label stood for before.
    LabelRedeclaration(Block),
    UndeclaredLabel(String),
    CaseOutsideSwitch { is_default: bool },
    DuplicateCase { is_default: bool },
    MultipleDefaultCase,
    InvalidVoidParameter,
    TypedefInExpressionContext,
}

/// What the parser diagnoses.
#[derive(Clone, Debug, PartialEq, Eq)]
#[non_exhaustive]
pub enum SyntaxError {
    Generic(String),
    EndOfFile(&'static str),
    /// Carries the keyword, rendered.
    NotAStatement(String),
}

/// What the preprocessor diagnoses. Tokens are carried rendered.
#[derive(Clone, Debug, PartialEq)]
#[non_exhaustive]
pub enum CppError {
    Generic(String),
    InvalidDirective,
    UnexpectedToken(&'static str, String),
    EndOfFile(&'static str),
    InvalidCppToken(String),
    UnterminatedDirective(&'static str),
    EmptyExpression,
    UnexpectedEndIf,
}

/// What the lexer diagnoses.
#[derive(Clone, Debug, PartialEq, Eq)]
#[non_exhaustive]
pub enum LexError {
    Generic(String),
    UnterminatedComment,
}

/// A remark that does not stop compilation.
#[derive(Debug, PartialEq, Eq)]
#[non_exhaustive]
pub enum Warning {
    Generic(String),
}

/// The diagnostics gathered so far: errors and warnings, each in the order
/// in which they were reported.
#[derive(Debug, PartialEq)]
pub struct ErrorHandler {
    pub errors: VecDeque<CompileError>,
    pub warnings: VecDeque<CompileWarning>,
}

impl Default for ErrorHandler {
    fn default() -> (r: ErrorHandler)
        ensures
            r.errors@ == Seq::<CompileError>::empty(),
            r.warnings@ == Seq::<CompileWarning>::empty(),
    {
        ErrorHandler { errors: VecDeque::new(), warnings: VecDeque::new() }
    }
}

impl ErrorHandler {
    /// A collector that holds nothing.
    pub fn new() -> (r: ErrorHandler)
        ensures
            r.errors@ == Seq::<CompileError>::empty(),
            r.warnings@ == Seq::<CompileWarning>::empty(),
    {
        ErrorHandler { errors: VecDeque::new(), warnings: VecDeque::new() }
    }

    /// Whatever was reported to `self` is still there in `later`, in the
    /// same order and before anything else.
    pub open spec fn kept_by(self, later: ErrorHandler) -> bool {
        &&& self.errors@.is_prefix_of(later.errors@)
        &&& self.warnings@.is_prefix_of(later.warnings@)
    }

    /// Appends an error.
    pub fn push_back<E: Into<CompileError>>(&mut self, error: E)
        ensures
            final(self).warnings == old(self).warnings,
            final(self).errors@.len() == old(self).errors@.len() + 1,
            final(self).errors@.drop_last() == old(self).errors@,
            call_ensures(E::into, (error,), final(self).errors@.last()),
            E::obeys_into_spec() ==> final(self).errors@ == old(self).errors@.push(
                error.into_spec(),
            ),
    {
        let ghost before = self.errors@;
        self.errors.push_back(error.into());
        assert(self.errors@.drop_last() =~= before);
    }

    /// Appends a warning, found at `location`.
    pub fn warn<W: Into<Warning>>(&mut self, warning: W, location: Location)
        ensures
            final(self).errors == old(self).errors,
            final(self).warnings@.len() == old(self).warnings@.len() + 1,
            final(self).warnings@.drop_last() == old(self).warnings@,
            final(self).warnings@.last().location == location,
            call_ensures(W::into, (warning,), final(self).warnings@.last().data),
            W::obeys_into_spec() ==> final(self).warnings@ == old(self).warnings@.push(
                Locatable { data: warning.into_spec(), location },
            ),
    {
        let ghost before = self.warnings@;
        self.warnings.push_back(location.with(warning.into()));
        assert(self.warnings@.drop_last() =~= before);
    }

    /// Appends the errors in their order.
    pub fn extend<E: Into<CompileError>>(&mut self, errors: Vec<E>)
        ensures
            final(self).warnings == old(self).warnings,
            final(self).errors@.len() == old(self).errors@.len() + errors@.len(),
            old(self).errors@.is_prefix_of(final(self).errors@),
            forall|i: int|
                0 <= i < errors@.len() ==> call_ensures(
                    E::into,
                    (errors@[i],),
                    #[trigger] final(self).errors@[old(self).errors@.len() + i],
                ),
            E::obeys_into_spec() ==> final(self).errors@ == old(self).errors@ + errors@.map_values(
                |e: E| e.into_spec(),
            ),
    {
        let ghost before = self.errors@;
        let ghost all = errors@;
        let ghost converted = all.map_values(|e: E| e.into_spec());
        for error in it: errors.into_iter()
            invariant
                it.seq() == all,
                converted == all.map_values(|e: E| e.into_spec()),
                self.warnings == old(self).warnings,
                before == old(self).errors@,
                self.errors@.len() == before.len() + it.index(),
                before.is_prefix_of(self.errors@),
                forall|i: int|
                    0 <= i < it.index() ==> call_ensures(
                        E::into,
                        (all[i],),
                        #[trigger] self.errors@[before.len() + i],
                    ),
                E::obeys_into_spec() ==> self.errors@ == before + converted.take(it.index() as int),
        {
            let ghost so_far = self.errors@;
            self.errors.push_back(error.into());
            proof {
                assert(before =~= self.errors@.subrange(0, before.len() as int));
                if E::obeys_into_spec() {
                    assert(converted.take(it.index() + 1) =~= converted.take(it.index() as int).push(
                        converted[it.index() as int],
                    ));
                    assert(self.errors@ =~= before + converted.take(it.index() + 1));
                }
            }
        }
        assert(converted.take(all.len() as int) =~= converted);
    }

    /// Removes the oldest error and returns it, if there is one: the next
    /// item of the collector taken as a stream of errors.
    pub fn next(&mut self) -> (r: Option<CompileError>)
        ensures
            final(self).warnings == old(self).warnings,
            match r {
                Some(e) => old(self).errors@.len() > 0 && e == old(self).errors@[0]
                    && final(self).errors@ == old(self).errors@.drop_first(),
                None => old(self).errors@.len() == 0 && final(self).errors@ == old(self).errors@,
            },
    {
        self.pop_front()
    }

    /// Takes every error out, oldest first, and leaves none behind.
    pub fn drain(&mut self) -> (r: Vec<CompileError>)
        ensures
            r@ == old(self).errors@,
            final(self).errors@ == Seq::<CompileError>::empty(),
            final(self).warnings == old(self).warnings,
    {
        let ghost all = self.errors@;
        let mut drained: Vec<CompileError> = Vec::new();
        while self.errors.len() > 0
            invariant
                self.warnings == old(self).warnings,
                all == old(self).errors@,
                drained@ + self.errors@ == all,
            decreases self.errors@.len(),
        {
            let ghost rest = self.errors@;
            match self.errors.pop_front() {
                Some(e) => {
                    drained.push(e);
                    assert(drained@ + self.errors@ =~= drained@.drop_last() + rest);
                },
                None => {},
            }
        }
        assert(drained@ =~= drained@ + self.errors@);
        assert(self.errors@ =~= Seq::<CompileError>::empty());
        drained
    }

    /// Removes the oldest error and returns it, if there is one.
    pub fn pop_front(&mut self) -> (r: Option<CompileError>)
        ensures
            final(self).warnings == old(self).warnings,
            match r {
                Some(e) => old(self).errors@.len() > 0 && e == old(self).errors@[0]
                    && final(self).errors@ == old(self).errors@.drop_first(),
                None => old(self).errors@.len() == 0 && final(self).errors@ == old(self).errors@,
            },
    {
        self.errors.pop_front()
    }
}

impl From<SemanticError> for Error {
    fn from(error: SemanticError) -> (r: Error) {
        Error::Semantic(error)
    }
}

impl FromSpecImpl<SemanticError> for Error {
    open spec fn obeys_from_spec() -> bool {
        true
    }

    open spec fn from_spec(error: SemanticError) -> Error {
        Error::Semantic(error)
    }
}

impl From<SyntaxError> for Error {
    fn from(error: SyntaxError) -> (r: Error) {
        Error::Syntax(error)
    }
}

impl FromSpecImpl<SyntaxError> for Error {
    open spec fn obeys_from_spec() -> bool {
        true
    }

    open spec fn from_spec(error: SyntaxError) -> Error {
        Error::Syntax(error)
    }
}

impl From<CppError> for Error {
    fn from(error: CppError) -> (r: Error) {
        Error::PreProcessor(error)
    }
}

impl FromSpecImpl<CppError> for Error {
    open spec fn obeys_from_spec() -> bool {
        true
    }

    open spec fn from_spec(error: CppError) -> Error {
        Error::PreProcessor(error)
    }
}

impl From<LexError> for Error {
    fn from(error: LexError) -> (r: Error) {
        Error::Lex(error)
    }
}

impl FromSpecImpl<LexError> for Error {
    open spec fn obeys_from_spec() -> bool {
        true
    }

    open spec fn from_spec(error: LexError) -> Error {
        Error::Lex(error)
    }
}

impl From<Locatable<SemanticError>> for CompileError {
    fn from(err: Locatable<SemanticError>) -> (r: CompileError) {
        Locatable { data: Error::Semantic(err.data), location: err.location }
    }
}

impl FromSpecImpl<Locatable<SemanticError>> for CompileError {
    open spec fn obeys_from_spec() -> bool {
        true
    }

    open spec fn from_spec(err: Locatable<SemanticError>) -> CompileError {
        Locatable { data: Error::Semantic(err.data), location: err.location }
    }
}

impl From<Locatable<SyntaxError>> for CompileError {
    fn from(err: Locatable<SyntaxError>) -> (r: CompileError) {
        Locatable { data: Error::Syntax(err.data), location: err.location }
    }
}

impl FromSpecImpl<Locatable<SyntaxError>> for CompileError {
    open spec fn obeys_from_spec() -> bool {
        true
    }

    open spec fn from_spec(err: Locatable<SyntaxError>) -> CompileError {
        Locatable { data: Error::Syntax(err.data), location: err.location }
    }
}

impl From<Locatable<CppError>> for CompileError {
    fn from(err: Locatable<CppError>) -> (r: CompileError) {
        Locatable { data: Error::PreProcessor(err.data), location: err.location }
    }
}

impl FromSpecImpl<Locatable<CppError>> for CompileError {
    open spec fn obeys_from_spec() -> bool {
        true
    }

    open spec fn from_spec(err: Locatable<CppError>) -> CompileError {
        Locatable { data: Error::PreProcessor(err.data), location: err.location }
    }
}

impl From<Locatable<String>> for CompileError {
    fn from(err: Locatable<String>) -> (r: CompileError) {
        Locatable { data: Error::Semantic(SemanticError::Generic(err.data)), location: err.location }
    }
}

impl FromSpecImpl<Locatable<String>> for CompileError {
    open spec fn obeys_from_spec() -> bool {
        true
    }

    open spec fn from_spec(err: Locatable<String>) -> CompileError {
        Locatable { data: Error::Semantic(SemanticError::Generic(err.data)), location: err.location }
    }
}

impl From<Locatable<String>> for Locatable<SemanticError> {
    fn from(err: Locatable<String>) -> (r: Locatable<SemanticError>) {
        Locatable { data: SemanticError::Generic(err.data), location: err.location }
    }
}

impl FromSpecImpl<Locatable<String>> for Locatable<SemanticError> {
    open spec fn obeys_from_spec() -> bool {
        true
    }

    open spec fn from_spec(err: Locatable<String>) -> Locatable<SemanticError> {
        Locatable { data: SemanticError::Generic(err.data), location: err.location }
    }
}

impl<T: Into<String>> From<T> for Warning {
    fn from(msg: T) -> (r: Warning) {
        Warning::Generic(msg.into())
    }
}

impl<T: Into<String>> FromSpecImpl<T> for Warning {
    open spec fn obeys_from_spec() -> bool {
        T::obeys_into_spec()
    }

    open spec fn from_spec(msg: T) -> Warning {
        Warning::Generic(msg.into_spec())
    }
}

impl<S: Into<String>> From<S> for SemanticError {
    fn from(err: S) -> (r: SemanticError) {
        SemanticError::Generic(err.into())
    }
}

impl<S: Into<String>> FromSpecImpl<S> for SemanticError {
    open spec fn obeys_from_spec() -> bool {
        S::obeys_into_spec()
    }

    open spec fn from_spec(err: S) -> SemanticError {
        SemanticError::Generic(err.into_spec())
    }
}

impl<S: Into<String>> From<S> for SyntaxError {
    fn from(err: S) -> (r: SyntaxError) {
        SyntaxError::Generic(err.into())
    }
}

impl<S: Into<String>> FromSpecImpl<S> for SyntaxError {
    open spec fn obeys_from_spec() -> bool {
        S::obeys_into_spec()
    }

    open spec fn from_spec(err: S) -> SyntaxError {
        SyntaxError::Generic(err.into_spec())
    }
}

impl Error {
    /// Whether the lexer found it.
    pub fn is_lex_err(&self) -> (r: bool)
        ensures
            r == (self is Lex),
    {
        match self {
            Error::Lex(_) => true,
            _ => false,
        }
    }

    /// Whether the parser found it.
    pub fn is_syntax_err(&self) -> (r: bool)
        ensures
            r == (self is Syntax),
    {
        match self {
            Error::Syntax(_) => true,
            _ => false,
        }
    }

    /// Whether semantic analysis or the lowerer found it.
    pub fn is_semantic_err(&self) -> (r: bool)
        ensures
            r == (self is Semantic),
    {
        match self {
            Error::Semantic(_) => true,
            _ => false,
        }
    }
}

impl CompileError {
    /// A semantic error that carries only the text of `err`, at its
    /// position.
    pub fn semantic(err: Locatable<String>) -> (r: CompileError)
        ensures
            r == (Locatable {
                data: Error::Semantic(SemanticError::Generic(err.data)),
                location: err.location,
            }),
    {
        CompileError::from(err)
    }

    /// Where the error was found.
    pub fn location(&self) -> (r: Location)
        ensures
            r == self.location,
    {
        self.location
    }

    /// Whether the lexer found it.
    pub fn is_lex_err(&self) -> (r: bool)
        ensures
            r == (self.data is Lex),
    {
        self.data.is_lex_err()
    }

    /// Whether the parser found it.
    pub fn is_syntax_err(&self) -> (r: bool)
        ensures
            r == (self.data is Syntax),
    {
        self.data.is_syntax_err()
    }

    /// Whether semantic analysis or the lowerer found it.
    pub fn is_semantic_err(&self) -> (r: bool)
        ensures
            r == (self.data is Semantic),
    {
        self.data.is_semantic_err()
    }
}

/// Results that can be turned into their value with the help of a
/// collector, which takes what went wrong.
pub trait Recover {
    type Ok;

    /// The value of the result. A failure is reported to `error_handler`
    /// and its fallback returned; warnings are left alone.
    fn recover(self, error_handler: &mut ErrorHandler) -> (r: Self::Ok)
        ensures
            final(error_handler).warnings == old(error_handler).warnings,
            old(error_handler).errors@.is_prefix_of(final(error_handler).errors@),
    ;
}

impl<T, E: Into<CompileError>> Recover for RecoverableResult<T, E> {
    type Ok = T;

    /// A success leaves the collector as it is; a failure appends its one
    /// error and yields the fallback.
    fn recover(self, error_handler: &mut ErrorHandler) -> (r: T)
        ensures
            match self {
                Ok(value) => r == value && *final(error_handler) == *old(error_handler),
                Err((error, fallback)) => {
                    &&& r == fallback
                    &&& final(error_handler).errors@.len() == old(error_handler).errors@.len() + 1
                    &&& final(error_handler).errors@.drop_last() == old(error_handler).errors@
                    &&& call_ensures(E::into, (error,), final(error_handler).errors@.last())
                    &&& E::obeys_into_spec() ==> final(error_handler).errors@ == old(
                        error_handler,
                    ).errors@.push(error.into_spec())
                },
            },
    {
        match self {
            Ok(value) => value,
            Err((e, i)) => {
                let ghost before = error_handler.errors@;
                error_handler.push_back(e);
                assert(before =~= error_handler.errors@.subrange(0, before.len() as int));
                i
            },
        }
    }
}

impl<T, E: Into<CompileError>> Recover for RecoverableResult<T, Vec<E>> {
    type Ok = T;

    /// A success leaves the collector as it is; a failure appends its
    /// errors in their order and yields the fallback.
    fn recover(self, error_handler: &mut ErrorHandler) -> (r: T)
        ensures
            match self {
                Ok(value) => r == value && *final(error_handler) == *old(error_handler),
                Err((errors, fallback)) => {
                    &&& r == fallback
                    &&& final(error_handler).errors@.len() == old(error_handler).errors@.len()
                        + errors@.len()
                    &&& forall|i: int|
                        0 <= i < errors@.len() ==> call_ensures(
                            E::into,
                            (errors@[i],),
                            #[trigger] final(error_handler).errors@[old(error_handler).errors@.len()
                                + i],
                        )
                    &&& E::obeys_into_spec() ==> final(error_handler).errors@ == old(
                        error_handler,
                    ).errors@ + errors@.map_values(|e: E| e.into_spec())
                },
            },
    {
        match self {
            Ok(value) => value,
            Err((es, i)) => {
                error_handler.extend(es);
                i
            },
        }
    }
}

impl Location {
    /// The semantic error `error` at this position.
    pub open spec fn spec_error(self, error: SemanticError) -> CompileError {
        Locatable { data: Error::Semantic(error), location: self }
    }

    /// The error `error`, of whatever phase, at this position.
    pub fn error<E: Into<Error>>(self, error: E) -> (r: CompileError)
        ensures
            r.location == self,
            E::obeys_into_spec() ==> r.data == error.into_spec(),
    {
        Locatable { data: error.into(), location: self }
    }
}

} // verus!
