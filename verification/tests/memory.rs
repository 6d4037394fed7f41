use remind_core::{
    Block, BlockContent, BlockCreateDTO, BlockRepo, BlockService, BlockType, CoreError,
    MemoryBlocks, MemoryNotes, MemoryUsers, MemoryWorkspaces, Note, NoteCreateDTO, NoteIconType,
    NoteRepo, NoteService, PlainTextContent, User, UserRepo, Workspace, WorkspaceCreateDTO,
    WorkspaceRepo, WorkspaceService,
};

fn block(id: u128, note_id: u128, position: i32) -> Block {
    Block {
        id,
        block_type: BlockType::PlainText,
        content: BlockContent::PlainText(PlainTextContent { text: format!("block {}", id) }),
        note_id,
        position,
    }
}

fn note(id: u128, workspace_id: u128) -> Note {
    Note {
        id,
        title: format!("note {}", id),
        icon_type: NoteIconType::Emoji,
        icon_data: "📦".to_string(),
        workspace_id,
        parent_note: None,
    }
}

fn user(id: u128, username: &str, email: &str) -> User {
    User {
        id,
        username: username.to_string(),
        email: email.to_string(),
        password: "digest".to_string(),
    }
}

fn duplicate() -> CoreError {
    CoreError::Database("duplicate key".to_string())
}

#[test]
fn memory_blocks_list_a_note_ascending_by_position() {
    let mut repo = MemoryBlocks::new();
    repo.create(block(1, 10, 5)).unwrap();
    repo.create(block(2, 10, -3)).unwrap();
    repo.create(block(3, 20, 0)).unwrap();
    repo.create(block(4, 10, 5)).unwrap();
    repo.create(block(5, 10, 1)).unwrap();
    let listing: Vec<(u128, i32)> =
        repo.find_all_in_note(10).unwrap().iter().map(|b| (b.id, b.position)).collect();
    assert_eq!(listing, vec![(2, -3), (5, 1), (1, 5), (4, 5)]);
    let other: Vec<u128> = repo.find_all_in_note(20).unwrap().iter().map(|b| b.id).collect();
    assert_eq!(other, vec![3]);
    assert_eq!(repo.find_all_in_note(30).unwrap().len(), 0);
}

#[test]
fn memory_blocks_create_find_save_delete() {
    let mut repo = MemoryBlocks::new();
    assert!(repo.find_one(1).unwrap().is_none());
    repo.create(block(1, 10, 0)).unwrap();
    assert_eq!(repo.create(block(1, 11, 4)).unwrap_err(), duplicate());
    let found = repo.find_one(1).unwrap().unwrap();
    assert_eq!((found.id, found.note_id, found.position), (1, 10, 0));

    repo.save(block(1, 10, 7)).unwrap();
    assert_eq!(repo.find_one(1).unwrap().unwrap().position, 7);
    // A full replace of what is not stored adds nothing.
    repo.save(block(2, 10, 1)).unwrap();
    assert!(repo.find_one(2).unwrap().is_none());

    repo.create(block(2, 10, 1)).unwrap();
    repo.delete(1).unwrap();
    repo.delete(99).unwrap();
    assert!(repo.find_one(1).unwrap().is_none());
    assert_eq!(repo.find_one(2).unwrap().unwrap().position, 1);
    assert_eq!(repo.find_all_in_note(10).unwrap().len(), 1);
}

#[test]
fn memory_notes_list_a_workspace_in_the_order_stored() {
    let mut repo = MemoryNotes::new();
    repo.create(note(3, 1)).unwrap();
    repo.create(note(1, 1)).unwrap();
    repo.create(note(2, 2)).unwrap();
    repo.create(note(4, 1)).unwrap();
    assert_eq!(repo.create(note(4, 2)).unwrap_err(), duplicate());
    let ids: Vec<u128> = repo.find_all_in_workspace(1).unwrap().iter().map(|n| n.id).collect();
    assert_eq!(ids, vec![3, 1, 4]);
    let mut renamed = note(1, 1);
    renamed.title = "renamed".to_string();
    repo.save(renamed).unwrap();
    assert_eq!(repo.find_one(1).unwrap().unwrap().title, "renamed");
    repo.delete(3).unwrap();
    let ids: Vec<u128> = repo.find_all_in_workspace(1).unwrap().iter().map(|n| n.id).collect();
    assert_eq!(ids, vec![1, 4]);
    assert!(repo.find_one(3).unwrap().is_none());
}

#[test]
fn memory_workspaces_list_what_a_user_owns() {
    let mut repo = MemoryWorkspaces::new();
    repo.create(Workspace { id: 1, title: "a".to_string(), user_id: 7 }).unwrap();
    repo.create(Workspace { id: 2, title: "b".to_string(), user_id: 8 }).unwrap();
    repo.create(Workspace { id: 3, title: "c".to_string(), user_id: 7 }).unwrap();
    let ids: Vec<u128> = repo.find_all_by_user_id(7).unwrap().iter().map(|w| w.id).collect();
    assert_eq!(ids, vec![1, 3]);
    assert_eq!(repo.find_one(2).unwrap().unwrap().title, "b");
    repo.save(Workspace { id: 2, title: "b".to_string(), user_id: 7 }).unwrap();
    assert_eq!(repo.find_all_by_user_id(7).unwrap().len(), 3);
    assert_eq!(repo.find_all_by_user_id(8).unwrap().len(), 0);
    repo.delete(1).unwrap();
    assert!(repo.find_one(1).unwrap().is_none());
}

#[test]
fn memory_users_are_found_by_name_and_address() {
    let mut repo = MemoryUsers::new();
    repo.create(user(1, "ann", "ann@example.com")).unwrap();
    repo.create(user(2, "bob", "bob@example.com")).unwrap();
    assert_eq!(repo.create(user(2, "eve", "eve@example.com")).unwrap_err(), duplicate());
    assert_eq!(repo.find_one_by_username("bob".to_string()).unwrap().unwrap().id, 2);
    assert_eq!(repo.find_one_by_email("ann@example.com".to_string()).unwrap().unwrap().id, 1);
    assert!(repo.find_one_by_username("eve".to_string()).unwrap().is_none());
    assert!(repo.find_one_by_email("bob".to_string()).unwrap().is_none());
    assert_eq!(repo.find_one(1).unwrap().unwrap().username, "ann");
    let all: Vec<u128> = repo.find_all().unwrap().iter().map(|u| u.id).collect();
    assert_eq!(all, vec![1, 2]);
    repo.save(user(1, "anna", "ann@example.com")).unwrap();
    assert!(repo.find_one_by_username("ann".to_string()).unwrap().is_none());
    assert_eq!(repo.find_one_by_username("anna".to_string()).unwrap().unwrap().id, 1);
    repo.delete(2).unwrap();
    assert_eq!(repo.find_all().unwrap().len(), 1);
}

#[test]
fn services_run_on_the_memory_stores() {
    let mut workspaces = WorkspaceService::new(MemoryWorkspaces::new());
    for i in 0..3 {
        workspaces.create(WorkspaceCreateDTO { title: format!("w{}", i), user_id: 7 }).unwrap();
    }
    let fourth = workspaces.create(WorkspaceCreateDTO { title: "w3".to_string(), user_id: 7 });
    assert_eq!(fourth.unwrap_err(), CoreError::TooManyWorkspaces);
    assert_eq!(workspaces.get_all_by_user(7).unwrap().len(), 3);

    let mut blocks = BlockService::new(MemoryBlocks::new());
    let text = |s: &str| BlockCreateDTO {
        block_type: BlockType::PlainText,
        content: BlockContent::PlainText(PlainTextContent { text: s.to_string() }),
        note_id: 10,
    };
    assert_eq!(blocks.create(text("a")).unwrap().position, 0);
    assert_eq!(blocks.create(text("b")).unwrap().position, 1);
    assert_eq!(blocks.create(text("c")).unwrap().position, 2);
    assert_eq!(blocks.get_all_in_note(10).unwrap().len(), 3);
}

#[test]
fn reorder_on_the_memory_stores() {
    let mut stored = MemoryBlocks::new();
    stored.create(block(1, 10, 0)).unwrap();
    stored.create(block(2, 10, 1)).unwrap();
    stored.create(block(3, 10, 2)).unwrap();
    stored.create(block(4, 20, 0)).unwrap();
    let mut stored_notes = MemoryNotes::new();
    stored_notes.create(note(10, 1)).unwrap();
    stored_notes.create(note(20, 1)).unwrap();
    let mut notes = NoteService::new(stored_notes, stored);

    let listing = |notes: &NoteService<MemoryNotes, MemoryBlocks>, id: u128| -> Vec<(u128, i32)> {
        notes.find_one(id).unwrap().blocks.iter().map(|b| (b.id, b.position)).collect()
    };
    assert_eq!(listing(&notes, 10), vec![(1, 0), (2, 1), (3, 2)]);

    assert_eq!(notes.reorder_blocks(10, vec![2, 3]).unwrap_err(), CoreError::ServerError);
    assert_eq!(notes.reorder_blocks(10, vec![2, 3, 1, 4]).unwrap_err(), CoreError::ServerError);
    assert_eq!(listing(&notes, 10), vec![(1, 0), (2, 1), (3, 2)]);

    notes.reorder_blocks(10, vec![2, 3, 1]).unwrap();
    assert_eq!(listing(&notes, 10), vec![(2, 0), (3, 1), (1, 2)]);
    assert_eq!(listing(&notes, 20), vec![(4, 0)]);

    let created = notes
        .create(NoteCreateDTO { title: "n".to_string(), workspace_id: 1, parent_note: Some(10) })
        .unwrap();
    assert_eq!(created.blocks.len(), 0);
    assert_eq!(notes.get_all_in_workspace(1).unwrap().len(), 3);
}
