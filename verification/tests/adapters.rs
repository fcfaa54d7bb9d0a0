use prompt_hub::prompts::{
    PromptData, PromptList, PromptListReady, PromptRow, PromptRowReady, Tag,
};

fn tag(id: i64, name: &str) -> Tag {
    Tag {
        id,
        name: name.to_string(),
        bg_color: "FFFFFF".to_string(),
        text_color: "000000".to_string(),
        kind: "category".to_string(),
    }
}

fn list_row(tags: Option<Option<Vec<Tag>>>) -> PromptList {
    PromptList {
        id: 7,
        title: "Greet".into(),
        description: "d".into(),
        author: "alice".into(),
        author_id: 1,
        created_at: Some(1_700_000_000),
        star_count: 3,
        tags,
        is_starred: Some(true),
    }
}

fn detail_row(content: &str, tags: Option<Option<Vec<Tag>>>) -> PromptRow {
    PromptRow {
        id: 7,
        title: "Greet".into(),
        description: "d".into(),
        content: content.into(),
        author: "alice".into(),
        author_id: 1,
        created_at: None,
        star_count: 3,
        tags,
        is_starred: None,
    }
}

#[test]
fn ready_list_row_carries_the_columns_over() {
    let ready = PromptListReady::from(list_row(Some(Some(vec![tag(1, "Writing")]))));
    assert_eq!(ready.id, 7);
    assert_eq!(ready.title, "Greet");
    assert_eq!(ready.description, "d");
    assert_eq!(ready.author, "alice");
    assert_eq!(ready.author_id, 1);
    assert_eq!(ready.created_at, Some(1_700_000_000));
    assert_eq!(ready.star_count, 3);
    assert_eq!(ready.is_starred, Some(true));
    assert_eq!(ready.tags.len(), 1);
    assert_eq!(ready.tags[0].name, "Writing");
}

#[test]
fn ready_list_row_has_an_empty_list_for_no_tags() {
    assert!(PromptListReady::from(list_row(None)).tags.is_empty());
    assert!(PromptListReady::from(list_row(Some(None))).tags.is_empty());
    assert!(PromptListReady::from(list_row(Some(Some(vec![])))).tags.is_empty());
}

#[test]
fn ready_list_row_keeps_the_order_of_the_tags() {
    let raw = list_row(Some(Some(vec![tag(3, "c"), tag(1, "a"), tag(2, "b")])));
    let ready: PromptListReady = raw.into();
    assert_eq!(ready.tags.iter().map(|tag| tag.id).collect::<Vec<_>>(), vec![3, 1, 2]);
}

#[test]
fn ready_detail_row_estimates_the_tokens() {
    let ready = PromptRowReady::from(detail_row("Hello", None));
    assert_eq!(ready.estimated_tokens, 1);
    assert_eq!(ready.content, "Hello");
    assert!(ready.tags.is_empty());
    assert_eq!(ready.created_at, None);
    assert_eq!(ready.is_starred, None);
    let longer = PromptRowReady::from(detail_row("one two three four five", Some(None)));
    // 23 characters, 5 words: (23 / 4 + 5) / 2 = 5
    assert_eq!(longer.estimated_tokens, 5);
}

#[test]
fn ready_detail_row_carries_the_columns_over() {
    let ready = PromptRowReady::from(detail_row("c", Some(Some(vec![tag(2, "b"), tag(1, "a")]))));
    assert_eq!(ready.id, 7);
    assert_eq!(ready.title, "Greet");
    assert_eq!(ready.description, "d");
    assert_eq!(ready.author, "alice");
    assert_eq!(ready.author_id, 1);
    assert_eq!(ready.star_count, 3);
    assert_eq!(ready.tags.iter().map(|tag| tag.id).collect::<Vec<_>>(), vec![2, 1]);
}

#[test]
fn prompt_data_starts_empty_beside_the_row() {
    let data = PromptData::from(detail_row("Hello", Some(Some(vec![tag(1, "a")]))));
    assert_eq!(data.row.id, 7);
    assert_eq!(data.row.content, "Hello");
    assert_eq!(data.row.star_count, 3);
    assert_eq!(data.row.tags.as_ref().unwrap().as_ref().unwrap().len(), 1);
    assert_eq!(data.summary, "");
    assert!(data.tags.is_empty());
    assert_eq!(data.author_id, 0);
    assert_eq!(data.author_name, "");
    assert_eq!(data.comment_count, 0);
    assert_eq!(data.star_count, 0);
}
