//! A generalized operator-precedence (Pratt) parsing engine.
//!
//! Given a stream of tokens and a per-token operator description, the engine
//! builds a single output value by recursively combining operands according
//! to precedence, associativity, and syntactic position, including
//! multi-part constructs such as `if … then … else` and bracketing forms.
//! The tokenizer, the mapping from a token to its operator description, and
//! the reducers that turn matched operators plus operands into output values
//! are collaborators supplied by the caller through the [`engine::PrattParser`]
//! trait; the engine only states the contract it requires from them.

pub mod engine;
pub mod op;
pub mod power;
pub mod stream;

pub use engine::PrattError;
pub use engine::PrattParser;
pub use engine::parse;
pub use engine::parse_until;
pub use op::Affix;
pub use op::Arity;
pub use op::Associativity;
pub use op::Op;
pub use op::Precedence;
pub use stream::Tokens;
