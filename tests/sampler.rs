use imhumane::{draw_challenge, draw_from, Collection, Error};

fn collection(name: &str, n: usize) -> Collection {
    Collection {
        name: name.to_string(),
        images: (0..n).map(|i| format!("root/{}/{}.jpg", name, i).into_bytes()).collect(),
    }
}

fn ones(s: &str) -> usize {
    s.chars().filter(|c| *c == '1').count()
}

#[test]
fn insufficient_collections() {
    let cols = vec![collection("cats", 9)];
    assert!(matches!(draw_challenge(&cols, 3), Err(Error::InsufficientCollections)));
    assert!(matches!(draw_challenge(&vec![], 3), Err(Error::InsufficientCollections)));
}

#[test]
fn too_few_images_for_the_grid() {
    let cols = vec![collection("cats", 2), collection("dogs", 2)];
    assert!(matches!(draw_challenge(&cols, 3), Err(Error::InsufficientCollections)));
}

#[test]
fn minimal_viable() {
    let cols = vec![collection("cats", 9), collection("dogs", 9)];
    for _ in 0..1000 {
        let d = draw_challenge(&cols, 3).unwrap();
        assert_eq!(d.answer.len(), 9);
        assert!(d.answer.chars().all(|c| c == '0' || c == '1'));
        assert_eq!(d.cells.len(), 9);
        let topic = cols.iter().find(|c| c.name == d.topic).expect("topic is a collection");
        for (k, cell) in d.cells.iter().enumerate() {
            let from_topic = topic.images.contains(cell);
            assert_eq!(d.answer.as_bytes()[k] == b'1', from_topic);
        }
        let mut sorted = d.cells.clone();
        sorted.sort();
        sorted.dedup();
        assert_eq!(sorted.len(), 9);
        assert!(ones(&d.answer) <= 9);
        assert!(uuid::Uuid::parse_str(&d.id).is_ok());
    }
}

#[test]
fn answer_length_and_topic_membership() {
    let cols = vec![
        collection("a", 4),
        collection("b", 4),
        collection("c", 4),
        collection("d", 4),
        collection("e", 4),
        collection("f", 4),
    ];
    for _ in 0..200 {
        match draw_challenge(&cols, 2) {
            Ok(d) => {
                assert_eq!(d.answer.len(), 4);
                assert!(cols.iter().any(|c| c.name == d.topic));
                let topic = cols.iter().find(|c| c.name == d.topic).unwrap();
                let from_topic = d.cells.iter().filter(|p| topic.images.contains(p)).count();
                assert_eq!(ones(&d.answer), from_topic);
            }
            Err(e) => panic!("unexpected {:?}", e),
        }
    }
}

#[test]
fn draw_of_all_topic_cells() {
    let cols = vec![collection("cats", 9), collection("dogs", 9)];
    let drawn: Vec<usize> = (0..9).collect();
    let d = draw_from(&cols, &vec![0, 1], &drawn, "x".to_string());
    assert_eq!(d.answer, "111111111");
    assert_eq!(d.topic, "cats");
    assert_eq!(d.id, "x");
    assert_eq!(d.cells[4], b"root/cats/4.jpg".to_vec());
}

#[test]
fn draw_with_one_topic_cell() {
    let cols = vec![collection("cats", 9), collection("dogs", 9)];
    let drawn: Vec<usize> = vec![9, 10, 11, 3, 12, 13, 14, 15, 16];
    let d = draw_from(&cols, &vec![0, 1], &drawn, "x".to_string());
    assert_eq!(d.answer, "000100000");
    assert_eq!(d.cells[0], b"root/dogs/0.jpg".to_vec());
    assert_eq!(d.cells[3], b"root/cats/3.jpg".to_vec());
}

#[test]
fn draw_topic_is_first_chosen() {
    let cols = vec![collection("a", 1), collection("b", 2), collection("c", 1)];
    let d = draw_from(&cols, &vec![2, 1], &vec![2, 0, 1], "x".to_string());
    assert_eq!(d.topic, "c");
    assert_eq!(d.answer, "010");
    assert_eq!(
        d.cells,
        vec![b"root/b/1.jpg".to_vec(), b"root/c/0.jpg".to_vec(), b"root/b/0.jpg".to_vec()]
    );
}
