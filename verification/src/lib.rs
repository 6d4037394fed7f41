//! Domain core of a note-taking backend: users, workspaces, notes and the
//! ordered content blocks inside notes, together with the token lifecycle
//! used to authenticate callers.
//!
//! Every service is generic over a repository capability. The repository
//! traits describe the backing store through a ghost model, and the service
//! contracts state their effect on that model.

pub mod auth;
pub mod dto;
pub mod entities;
pub mod errors;
pub mod repositories;
pub mod services;

pub use auth::claims::Claims;
pub use auth::errors::AuthError;
pub use auth::jwt::{create_token, decode_token, JwtProcessor};
pub use auth::password::{hash_password, verify_password};
pub use dto::block::{BlockCreateDTO, BlockDTO, BlockUpdateDTO};
pub use dto::note::{NoteCreateDTO, NoteDTO, NoteUpdateDTO};
pub use dto::user::{UserCreateDTO, UserDTO, UserLoginEmailDTO, UserLoginUsernameDTO};
pub use dto::workspace::{WorkspaceCreateDTO, WorkspaceDTO};
pub use entities::block::{
    Block, BlockContent, BlockType, CheckboxContent, CodeContent, ImageContent, PlainTextContent,
};
pub use entities::note::{Note, NoteIconType};
pub use entities::user::User;
pub use entities::workspace::Workspace;
pub use errors::CoreError;
pub use jsonwebtoken::{DecodingKey, EncodingKey};
pub use repositories::block::BlockRepo;
pub use repositories::memory::{MemoryBlocks, MemoryNotes, MemoryUsers, MemoryWorkspaces};
pub use repositories::note::NoteRepo;
pub use repositories::user::UserRepo;
pub use repositories::workspace::WorkspaceRepo;
pub use services::block::BlockService;
pub use services::note::NoteService;
pub use services::user::UserService;
pub use services::workspace::WorkspaceService;
