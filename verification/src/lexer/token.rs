//! The vocabulary of lexical categories.

use vstd::prelude::*;

verus! {

/// The category of a token.
///
/// The line classifier produces the separator, the closing brace, the resource
/// header, the scalar directives, the block openers, the identifier and the
/// end of input. The other categories are reserved for finer-grained stages.
#[derive(Debug, PartialEq, Eq, Clone, Copy, Structural)]
pub enum TokenType {
    TokenEOF,
    TokenDeployApp,
    TokenNamespace,
    TokenReplicas,
    TokenImage,
    TokenEnv,
    TokenPorts,
    TokenResources,
    TokenStorage,
    TokenLBrace,
    TokenRBrace,
    TokenColon,
    TokenString,
    TokenNumber,
    TokenIdentifier,
    TokenMemory,
    TokenCPU,
    TokenVolume,
    TokenSize,
    TokenLimits,
    TokenRequests,
    TokenArgs,
    TokenService,
    TokenPort,
    TokenTargetPort,
    TokenTypeString,
    TokenSeparator,
}

} // verus!
