use sfu::{RoomId, RoomManager, UserId};

#[test]
fn test_add_and_get_users() {
    let mut manager = RoomManager::new();
    let room_id = RoomId::from("room1");
    let user_1 = UserId::from("user1");
    let user_2 = UserId::from("user2");

    // Add first user
    assert!(manager.add_user(room_id.clone(), user_1.clone()));
    let users = manager.get_users(&room_id);
    assert_eq!(users.len(), 1);
    assert!(users.contains(&user_1));

    // Add second user
    assert!(!manager.add_user(room_id.clone(), user_2.clone())); // Should return false as room exists
    let users = manager.get_users(&room_id);
    assert_eq!(users.len(), 2);
    assert!(users.contains(&user_2));

    // Add duplicate user: the list is de-duplicated
    manager.add_user(room_id.clone(), user_1.clone());
    let users = manager.get_users(&room_id);
    assert_eq!(users.len(), 2);
}

#[test]
fn test_remove_user() {
    let mut manager = RoomManager::new();
    let room_id = RoomId::from("room1");
    let user_1 = UserId::from("user1");

    manager.add_user(room_id.clone(), user_1.clone());
    assert!(!manager.get_users(&room_id).is_empty());

    // Remove user
    let room_removed = manager.remove_user(&room_id, &user_1);
    assert!(room_removed); // Room should be removed as it's empty
    assert!(manager.get_users(&room_id).is_empty());

    // Remove non-existent user
    assert!(!manager.remove_user(&room_id, &user_1));
}

#[test]
fn test_multiple_rooms() {
    let mut manager = RoomManager::new();
    let room_1 = RoomId::from("room1");
    let room_2 = RoomId::from("room2");
    let user = UserId::from("user1");

    manager.add_user(room_1.clone(), user.clone());
    manager.add_user(room_2.clone(), user.clone());

    assert_eq!(manager.get_users(&room_1).len(), 1);
    assert_eq!(manager.get_users(&room_2).len(), 1);
}

#[test]
fn test_room_add_remove_scenario() {
    let mut manager = RoomManager::new();
    let r1 = RoomId::from("r1");
    let u1 = UserId::from("u1");
    let u2 = UserId::from("u2");

    assert!(manager.add_user(r1.clone(), u1.clone()));
    assert!(!manager.add_user(r1.clone(), u2.clone()));
    let users = manager.get_users(&r1);
    assert_eq!(users.len(), 2);
    assert_eq!(users[0].as_str(), "u1");
    assert_eq!(users[1].as_str(), "u2");

    assert!(!manager.add_user(r1.clone(), u1.clone()));
    assert_eq!(manager.get_users(&r1).len(), 2);

    assert!(!manager.remove_user(&r1, &u1));
    assert!(manager.remove_user(&r1, &u2));
    assert!(manager.get_users(&r1).is_empty());
}

#[test]
fn test_users_listed_once_after_racy_sequence() {
    let mut manager = RoomManager::new();
    let r = RoomId::from("r");
    for _ in 0..5 {
        manager.add_user(r.clone(), UserId::from("a"));
        manager.add_user(r.clone(), UserId::from("b"));
    }
    let users = manager.get_users(&r);
    assert_eq!(users.len(), 2);
    manager.remove_user(&r, &UserId::from("a"));
    let users = manager.get_users(&r);
    assert_eq!(users.len(), 1);
    assert_eq!(users[0].as_str(), "b");
}
