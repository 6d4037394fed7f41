use remind_core::services::block::{merge_update, next_position, project_blocks, validate_content};
use remind_core::services::note::{compose, has_block, index_of, plan_reorder};
use remind_core::services::require_found;
use remind_core::services::user::{
    ensure_unused, login_claims, login_verdict, new_user, token_outcome,
};
use remind_core::services::workspace::{
    check_owner, check_quota, project_workspaces, MAX_WORKSPACES,
};
use remind_core::{
    AuthError, Block, BlockContent, BlockDTO, BlockType, BlockUpdateDTO, CheckboxContent,
    CodeContent, CoreError, ImageContent, Note, NoteIconType, PlainTextContent, User,
    UserCreateDTO, UserDTO,
    Workspace, WorkspaceDTO,
};

fn kinds() -> Vec<BlockType> {
    vec![BlockType::PlainText, BlockType::Checkbox, BlockType::Image, BlockType::Code]
}

fn payloads() -> Vec<BlockContent> {
    vec![
        BlockContent::PlainText(PlainTextContent { text: "t".to_string() }),
        BlockContent::Checkbox(CheckboxContent {
            text: "t".to_string(),
            status: "done".to_string(),
        }),
        BlockContent::Image(ImageContent { url: "u".to_string(), alt: Some("a".to_string()) }),
        BlockContent::Code(CodeContent { code: "c".to_string(), language: "l".to_string() }),
    ]
}

fn block(id: u128, position: i32) -> Block {
    Block {
        id,
        block_type: BlockType::PlainText,
        content: BlockContent::PlainText(PlainTextContent { text: format!("block {}", id) }),
        note_id: 100,
        position,
    }
}

fn dto(id: u128, position: i32) -> BlockDTO {
    BlockDTO::from(block(id, position))
}

#[test]
fn spellings_of_kinds_and_payloads() {
    assert_eq!(BlockType::PlainText.as_str(), "PlainText");
    assert_eq!(BlockType::Checkbox.as_str(), "Checkbox");
    assert_eq!(BlockType::Image.as_str(), "Image");
    assert_eq!(BlockType::Code.as_str(), "Code");
    let names: Vec<&str> = payloads().iter().map(|p| p.as_str()).collect();
    assert_eq!(names, vec!["PlainText", "Checkbox", "Image", "Code"]);
    assert_eq!(NoteIconType::Emoji.as_str(), "Emoji");
    assert_eq!(NoteIconType::External.as_str(), "External");
}

#[test]
fn a_payload_matches_exactly_its_own_kind() {
    for (i, kind) in kinds().iter().enumerate() {
        for (j, payload) in payloads().iter().enumerate() {
            assert_eq!(kind.is_matching_content_type(payload), i == j);
            assert_eq!(kind.as_str() == payload.as_str(), i == j);
            let verdict = validate_content(kind, payload);
            if i == j {
                assert_eq!(verdict, Ok(()));
            } else {
                assert_eq!(verdict, Err(CoreError::BlockTypeMismatch));
            }
        }
    }
}

#[test]
fn a_row_is_a_block_only_when_kind_and_payload_agree() {
    for (i, kind) in kinds().iter().enumerate() {
        for (j, payload) in payloads().iter().enumerate() {
            let row = Block::from_row(5, 6, *kind, 7, payload.clone());
            assert_eq!(row.is_some(), i == j);
            if let Some(b) = row {
                assert_eq!((b.id, b.note_id, b.position), (5, 6, 7));
                assert_eq!(b.block_type, *kind);
                assert_eq!(b.content.as_str(), kind.as_str());
            }
        }
    }
}

#[test]
fn merge_update_over_every_pair() {
    for (i, kind) in kinds().iter().enumerate() {
        for (j, payload) in payloads().iter().enumerate() {
            let stored = block(1, 4);
            let r = merge_update(
                stored,
                BlockUpdateDTO { id: 1, block_type: Some(*kind), content: Some(payload.clone()) },
            );
            if i == j {
                let b = r.unwrap();
                assert_eq!(b.block_type, *kind);
                assert_eq!(b.content.as_str(), kind.as_str());
                assert_eq!((b.id, b.note_id, b.position), (1, 100, 4));
            } else {
                assert_eq!(r.unwrap_err(), CoreError::BlockTypeMismatch);
            }
        }
    }
    let unchanged =
        merge_update(block(1, 4), BlockUpdateDTO { id: 1, block_type: None, content: None })
            .unwrap();
    assert_eq!(unchanged.block_type, BlockType::PlainText);
    match unchanged.content {
        BlockContent::PlainText(c) => assert_eq!(c.text, "block 1"),
        _ => panic!("the payload changed its shape"),
    }
}

#[test]
fn next_position_values() {
    assert_eq!(next_position(&vec![]), Ok(0));
    assert_eq!(next_position(&vec![dto(1, 0)]), Ok(1));
    assert_eq!(next_position(&vec![dto(1, 0), dto(2, 1), dto(3, 7)]), Ok(8));
    assert_eq!(next_position(&vec![dto(1, -5)]), Ok(-4));
    assert_eq!(next_position(&vec![dto(1, i32::MAX - 1)]), Ok(i32::MAX));
    assert_eq!(next_position(&vec![dto(1, 0), dto(2, i32::MAX)]), Err(CoreError::ServerError));
}

#[test]
fn projections_keep_every_field() {
    let blocks = vec![block(1, 0), block(2, 1)];
    let dtos = project_blocks(&blocks);
    assert_eq!(dtos.len(), 2);
    assert_eq!((dtos[1].id, dtos[1].position, dtos[1].note_id), (2, 1, 100));
    assert_eq!(dtos[1].block_type, BlockType::PlainText);

    let workspaces = vec![Workspace { id: 3, title: "w".to_string(), user_id: 4 }];
    let dtos = project_workspaces(&workspaces);
    assert_eq!(dtos.len(), 1);
    assert_eq!((dtos[0].id, dtos[0].title.as_str(), dtos[0].user_id), (3, "w", 4));

    let w = WorkspaceDTO::from(Workspace { id: 3, title: "w".to_string(), user_id: 4 });
    assert_eq!((w.id, w.title.as_str(), w.user_id), (3, "w", 4));
    let u = UserDTO::from(User {
        id: 9,
        username: "n".to_string(),
        email: "e".to_string(),
        password: "digest".to_string(),
    });
    assert_eq!((u.id, u.username.as_str(), u.email.as_str()), (9, "n", "e"));

    let note = Note {
        id: 1,
        title: "t".to_string(),
        icon_type: NoteIconType::External,
        icon_data: "https://example.com/i.png".to_string(),
        workspace_id: 2,
        parent_note: Some(3),
    };
    let read = compose(note, vec![dto(5, 0)]);
    assert_eq!((read.id, read.title.as_str(), read.workspace_id), (1, "t", 2));
    assert_eq!(read.icon_type, NoteIconType::External);
    assert_eq!(read.icon_data, "https://example.com/i.png");
    assert_eq!(read.parent_note, Some(3));
    assert_eq!(read.blocks.len(), 1);
    assert_eq!(read.blocks[0].id, 5);
}

#[test]
fn defaults_are_empty() {
    let u = User::default();
    assert_eq!((u.id, u.username.as_str(), u.email.as_str(), u.password.as_str()), (0, "", "", ""));
    let w = Workspace::default();
    assert_eq!((w.id, w.title.as_str(), w.user_id), (0, "", 0));
}

#[test]
fn searching_a_list_of_names() {
    let ids = vec![7, 8, 7, 9];
    assert_eq!(index_of(&ids, 7), Some(0));
    assert_eq!(index_of(&ids, 8), Some(1));
    assert_eq!(index_of(&ids, 9), Some(3));
    assert_eq!(index_of(&ids, 10), None);
    assert_eq!(index_of(&vec![], 7), None);
    let blocks = vec![block(1, 0), block(2, 1)];
    assert!(has_block(&blocks, 2));
    assert!(!has_block(&blocks, 3));
    assert!(!has_block(&vec![], 1));
}

#[test]
fn plan_reorder_places_each_block() {
    let listing = vec![block(1, 0), block(2, 1), block(3, 2)];
    let plan = plan_reorder(&listing, &vec![2, 3, 1]).unwrap();
    let placed: Vec<(u128, i32)> = plan.iter().map(|b| (b.id, b.position)).collect();
    assert_eq!(placed, vec![(1, 2), (2, 0), (3, 1)]);
    assert_eq!(plan[0].note_id, 100);
    match &plan[0].content {
        BlockContent::PlainText(c) => assert_eq!(c.text, "block 1"),
        _ => panic!("the payload changed its shape"),
    }
    let plan = plan_reorder(&listing, &vec![3, 3, 2, 1]).unwrap();
    let placed: Vec<(u128, i32)> = plan.iter().map(|b| (b.id, b.position)).collect();
    assert_eq!(placed, vec![(1, 3), (2, 2), (3, 0)]);
    assert_eq!(plan_reorder(&vec![], &vec![]).unwrap().len(), 0);
}

#[test]
fn plan_reorder_refuses_what_is_not_the_same_set() {
    let listing = vec![block(1, 0), block(2, 1), block(3, 2)];
    assert_eq!(plan_reorder(&listing, &vec![1, 2]).unwrap_err(), CoreError::ServerError);
    assert_eq!(plan_reorder(&listing, &vec![1, 2, 3, 4]).unwrap_err(), CoreError::ServerError);
    assert_eq!(plan_reorder(&listing, &vec![1, 2, 4]).unwrap_err(), CoreError::ServerError);
    assert_eq!(plan_reorder(&listing, &vec![]).unwrap_err(), CoreError::ServerError);
    assert_eq!(plan_reorder(&vec![], &vec![1]).unwrap_err(), CoreError::ServerError);
}

#[test]
fn the_quota_is_three() {
    assert_eq!(MAX_WORKSPACES, 3);
    assert_eq!(check_quota(0), Ok(()));
    assert_eq!(check_quota(2), Ok(()));
    assert_eq!(check_quota(3), Err(CoreError::TooManyWorkspaces));
    assert_eq!(check_quota(4), Err(CoreError::TooManyWorkspaces));
    assert_eq!(check_quota(usize::MAX), Err(CoreError::TooManyWorkspaces));
}

#[test]
fn lookups_and_verdicts() {
    assert_eq!(require_found(Some(5)), Ok(5));
    assert_eq!(require_found(None::<i32>), Err(CoreError::NotFound));

    let user = User {
        id: 9,
        username: "n".to_string(),
        email: "e".to_string(),
        password: "digest".to_string(),
    };
    assert_eq!(ensure_unused(&None, AuthError::UsernameOccupied), Ok(()));
    assert_eq!(
        ensure_unused(&Some(user.clone()), AuthError::UsernameOccupied),
        Err(CoreError::AuthError(AuthError::UsernameOccupied))
    );
    assert_eq!(
        ensure_unused(&Some(user.clone()), AuthError::EmailExists),
        Err(CoreError::AuthError(AuthError::EmailExists))
    );

    let wrong = CoreError::AuthError(AuthError::WrongCredentials);
    assert_eq!(login_verdict(Some(user.clone()), true).unwrap().id, 9);
    assert_eq!(login_verdict(Some(user.clone()), false).unwrap_err(), wrong);
    assert_eq!(login_verdict(None, false).unwrap_err(), wrong);
    assert_eq!(login_verdict(None, true).unwrap_err(), wrong);
}

#[test]
fn messages_and_status_codes() {
    let cases: Vec<(CoreError, &str, u16)> = vec![
        (CoreError::Database("relation missing".to_string()), "Server error", 500),
        (CoreError::AuthError(AuthError::WrongCredentials), "Wrong credentials", 401),
        (CoreError::AuthError(AuthError::MissingCredentials), "Missing credentials", 401),
        (CoreError::AuthError(AuthError::TokenCreation), "Token creation error", 500),
        (CoreError::AuthError(AuthError::InvalidToken), "Invalid token", 400),
        (
            CoreError::AuthError(AuthError::UsernameOccupied),
            "This username is already occupied!",
            403,
        ),
        (CoreError::AuthError(AuthError::EmailExists), "This email already exists!", 403),
        (CoreError::ServerError, "Server error", 500),
        (CoreError::NotFound, "Not found", 404),
        (
            CoreError::TooManyWorkspaces,
            "User have reached the limit of create workspaces (3)",
            403,
        ),
        (CoreError::AccessDenied, "You don't have access to do it", 403),
        (CoreError::BlockTypeMismatch, "Block type does not match its content", 400),
    ];
    for (error, message, status) in cases {
        assert_eq!(error.message(), message);
        assert_eq!(error.status_code(), status);
    }
    assert_eq!(AuthError::InvalidToken.message(), "Invalid token");
}

#[test]
fn only_the_owner_is_let_through() {
    let workspace = WorkspaceDTO { id: 1, title: "w".to_string(), user_id: 7 };
    let owner = UserDTO { id: 7, username: "ann".to_string(), email: "a@example.com".to_string() };
    let other = UserDTO { id: 8, username: "bob".to_string(), email: "b@example.com".to_string() };
    assert_eq!(check_owner(&workspace, &owner), Ok(()));
    assert_eq!(check_owner(&workspace, &other), Err(CoreError::AccessDenied));
    assert_eq!(CoreError::AccessDenied.status_code(), 403);
}

#[test]
fn an_auth_failure_converts_into_a_core_failure() {
    assert_eq!(
        CoreError::from(AuthError::InvalidToken),
        CoreError::AuthError(AuthError::InvalidToken)
    );
    let e: CoreError = AuthError::EmailExists.into();
    assert_eq!(e, CoreError::AuthError(AuthError::EmailExists));
}

#[test]
fn login_claims_carry_the_name_for_half_an_hour() {
    let user = User {
        id: 9,
        username: "testUsername".to_string(),
        email: "test2@example.com".to_string(),
        password: "digest".to_string(),
    };
    let claims = login_claims(&user, 1_700_000_000);
    assert_eq!(claims.sub, "testUsername");
    assert_ne!(claims.sub, user.email);
    assert_eq!(claims.exp, 1_700_001_800);
    assert_eq!(login_claims(&user, 0).exp, 1800);
}

#[test]
fn token_outcome_hands_on_what_signing_returned() {
    assert_eq!(token_outcome(Ok("a.b.c".to_string())), Ok("a.b.c".to_string()));
    assert_eq!(
        token_outcome(Err(AuthError::TokenCreation)),
        Err(CoreError::AuthError(AuthError::TokenCreation))
    );
    assert_eq!(
        token_outcome(Err(AuthError::InvalidToken)),
        Err(CoreError::AuthError(AuthError::InvalidToken))
    );
}

#[test]
fn a_new_user_holds_the_digest_in_place_of_the_password() {
    let data = UserCreateDTO {
        username: "Test".to_string(),
        email: "test@example.com".to_string(),
        password: "somepass".to_string(),
    };
    let user = new_user(7, data, "$argon2id$digest".to_string());
    assert_eq!(user.id, 7);
    assert_eq!(user.username, "Test");
    assert_eq!(user.email, "test@example.com");
    assert_eq!(user.password, "$argon2id$digest");
}
