use dice::roster::{DiceList, DieData, Msg};

fn names(list: &DiceList) -> Vec<(String, String)> {
    list.dice.iter().map(|d| (d.name.clone(), d.roll.clone())).collect()
}

#[test]
fn roster_starts_with_default() {
    let list = DiceList::starting();
    assert_eq!(vec![("default".to_string(), "3x 3d20 *2 +1 s2".to_string())], names(&list));
}

#[test]
fn roster_new_update_delete() {
    let mut list = DiceList::starting();
    assert!(list.update(Msg::NewDie));
    assert_eq!(("".to_string(), "".to_string()), names(&list)[1]);

    assert!(list.update(Msg::UpdateDie("".to_string(), DieData::new("attack", "1d20+5"))));
    assert_eq!(("attack".to_string(), "1d20+5".to_string()), names(&list)[1]);

    list.update(Msg::NewDie);
    list.update(Msg::UpdateDie("".to_string(), DieData::new("attack", "2d6")));
    list.update(Msg::UpdateDie("attack".to_string(), DieData::new("hit", "1d20")));
    assert_eq!(
        vec![
            ("default".to_string(), "3x 3d20 *2 +1 s2".to_string()),
            ("hit".to_string(), "1d20".to_string()),
            ("attack".to_string(), "2d6".to_string()),
        ],
        names(&list)
    );

    list.update(Msg::UpdateDie("missing".to_string(), DieData::new("x", "y")));
    assert_eq!(3, list.dice.len());

    list.update(Msg::NewDie);
    list.update(Msg::UpdateDie("".to_string(), DieData::new("hit", "3d4")));
    list.update(Msg::DeleteDie("hit".to_string()));
    assert_eq!(
        vec![
            ("default".to_string(), "3x 3d20 *2 +1 s2".to_string()),
            ("attack".to_string(), "2d6".to_string()),
        ],
        names(&list)
    );
}

#[test]
fn die_data_copies() {
    let d = DieData::new("a", "1d4");
    let e = d.duplicate();
    assert_eq!("a", e.name);
    assert_eq!("1d4", e.roll);
}
