use medialibrary::store::{SqlLibrary, StoreError, Table};

#[test]
fn create_get_update_delete_collection() {
    let mut lib = SqlLibrary::new();
    let user = "ana".to_string();
    let c = lib.create_collection(&user, "Noir".to_string(), "2022-01-01 10:00:00".to_string());
    assert_eq!(c.id, 1);
    assert_eq!(c.name, "Noir");
    assert_eq!(c.creator, "ana");
    assert_eq!(c.description, "");
    let d = lib.create_collection(&user, "Heist".to_string(), "2022-01-02 10:00:00".to_string());
    assert_eq!(d.id, 2);

    let got = lib.get_collection(&"bob".to_string(), 1).unwrap();
    assert_eq!(got.user, "bob");
    assert_eq!(got.name, "Noir");
    assert!(lib.get_collection(&user, 3).is_none());

    let mut edited = got;
    edited.description = "Shadows".to_string();
    edited.poster_path = "/noir.jpg".to_string();
    let saved = lib.update_collection(&user, &edited).unwrap();
    assert_eq!(saved.description, "Shadows");
    assert_eq!(lib.collections.rows.len(), 2);
    let again = lib.get_collection(&user, 1).unwrap();
    assert_eq!(again.poster_path, "/noir.jpg");

    let all = lib.get_collections(&user);
    assert_eq!(all.len(), 2);
    assert!(all.iter().any(|c| c.id == 2 && c.name == "Heist"));

    lib.delete_collection(1);
    assert!(lib.get_collection(&user, 1).is_none());
    assert_eq!(lib.get_collections(&user).len(), 1);
    lib.delete_collection(1);
    assert_eq!(lib.collections.rows.len(), 1);
    let e = lib.create_collection(&user, "Later".to_string(), "2022-02-01".to_string());
    assert_eq!(e.id, 3);
    assert!(lib.well_formed());

    let mut far = lib.get_collection(&user, 3).unwrap();
    far.id = 10;
    lib.update_collection(&user, &far).unwrap();
    let next = lib.create_collection(&user, "Next".to_string(), "2022-03-01".to_string());
    assert_eq!(next.id, 11);
    far.id = u64::MAX;
    assert_eq!(
        lib.update_collection(&user, &far).err(),
        Some(StoreError::Constraint(Table::Collections))
    );
    assert!(lib.well_formed());
}
