use nanohat_feed::bitmap::Bitmap;
use nanohat_feed::compositor::Labeled;
use nanohat_feed::feed::{
    categories, category_entry, feed_items, FeedCategory, FeedItem, CATEGORY_COUNT,
};
use nanohat_feed::rss::{Channel, Item, RSS};

fn label_of(value: u8) -> Bitmap {
    Bitmap::from_raw(128, 8, vec![value; 1024]).unwrap()
}

fn document(items: Vec<Item>) -> RSS {
    RSS {
        channel: Channel {
            language: "ja".to_string(),
            copyright: "sabinote".to_string(),
            pub_date: "2021-08-12T12:03:56.577Z".to_string(),
            title: "タイトルです".to_string(),
            link: "リンクです".to_string(),
            description: "説明です".to_string(),
            items,
        },
    }
}

fn entry(title: &str, description: Option<&str>) -> Item {
    Item {
        title: title.to_string(),
        link: "アイテムへのリンクです".to_string(),
        pub_date: "2021-08-12T11:37:05.000Z".to_string(),
        description: description.map(|d| d.to_string()),
        comments: "アイテムへのコメントです".to_string(),
    }
}

#[test]
fn the_table_has_nine_categories() {
    assert_eq!(CATEGORY_COUNT, 9);
    assert_eq!(
        category_entry(0),
        ("主要", "https://news.yahoo.co.jp/rss/topics/top-picks.xml")
    );
    assert_eq!(category_entry(6), ("IT", "https://news.yahoo.co.jp/rss/topics/it.xml"));
    assert_eq!(
        category_entry(8),
        ("地域", "https://news.yahoo.co.jp/rss/topics/local.xml")
    );
    let names: Vec<&str> = (0..9).map(|i| category_entry(i).0).collect();
    assert_eq!(
        names,
        vec!["主要", "国内", "国際", "経済", "エンタメ", "スポーツ", "IT", "科学", "地域"]
    );
}

#[test]
fn categories_take_one_label_each() {
    let labels: Vec<Bitmap> = (0..9).map(label_of).collect();
    let table = categories(&labels).unwrap();
    assert_eq!(table.len(), 9);
    for (i, category) in table.iter().enumerate() {
        assert_eq!(category.name().as_str(), category_entry(i).0);
        assert_eq!(category.source_url().as_str(), category_entry(i).1);
        assert_eq!(category.label().pixels(), labels[i].pixels());
    }
    assert_eq!(
        table[4].source_url().as_str(),
        "https://news.yahoo.co.jp/rss/topics/entertainment.xml"
    );
}

#[test]
fn categories_refuse_a_wrong_set_of_labels() {
    let eight: Vec<Bitmap> = (0..8).map(label_of).collect();
    assert!(categories(&eight).is_none());
    let ten: Vec<Bitmap> = (0..10).map(label_of).collect();
    assert!(categories(&ten).is_none());
    let mut odd: Vec<Bitmap> = (0..9).map(label_of).collect();
    odd[8] = Bitmap::new(128, 16);
    assert!(categories(&odd).is_none());
}

#[test]
fn a_category_needs_a_label_of_one_row() {
    assert!(FeedCategory::new("a".to_string(), "b".to_string(), label_of(0)).is_some());
    assert!(FeedCategory::new("a".to_string(), "b".to_string(), Bitmap::new(64, 8)).is_none());
    assert!(FeedItem::new("a".to_string(), None, Bitmap::new(128, 9)).is_none());
}

#[test]
fn a_missing_description_reads_not_found() {
    let with = FeedItem::new("t".to_string(), Some("アイテムの説明です".to_string()), label_of(0))
        .unwrap();
    assert_eq!(with.description_text(), "アイテムの説明です");
    let without = FeedItem::new("t".to_string(), None, label_of(0)).unwrap();
    assert_eq!(without.description_text(), "Not Found");
    let empty = FeedItem::new("t".to_string(), Some(String::new()), label_of(0)).unwrap();
    assert_eq!(empty.description_text(), "");
}

#[test]
fn feed_items_follow_the_document() {
    let rss = document(vec![
        entry("アイテムのタイトルです", Some("アイテムの説明です")),
        entry("second", None),
    ]);
    let items = feed_items(&rss, &vec![label_of(1), label_of(2)]).unwrap();
    assert_eq!(items.len(), 2);
    assert_eq!(items[0].title().as_str(), "アイテムのタイトルです");
    assert_eq!(items[0].description_text(), "アイテムの説明です");
    assert_eq!(items[0].label().pixels(), label_of(1).pixels());
    assert_eq!(items[1].title().as_str(), "second");
    assert_eq!(items[1].description_text(), "Not Found");
    assert_eq!(items[1].label().pixels(), label_of(2).pixels());
}

#[test]
fn feed_items_need_one_label_for_each_entry() {
    let rss = document(vec![entry("a", None), entry("b", None)]);
    assert!(feed_items(&rss, &vec![label_of(1)]).is_none());
    assert!(feed_items(&rss, &vec![label_of(1), label_of(2), label_of(3)]).is_none());
    assert!(feed_items(&rss, &vec![label_of(1), Bitmap::new(128, 64)]).is_none());
    assert_eq!(feed_items(&document(Vec::new()), &Vec::new()).unwrap().len(), 0);
}

#[test]
fn make_rss_test() {
    let rss = document(vec![entry("アイテムのタイトルです", Some("アイテムの説明です"))]);
    let channel = &rss.channel;
    assert_eq!(channel.language, "ja");
    assert_eq!(channel.copyright, "sabinote");
    assert_eq!(channel.pub_date, "2021-08-12T12:03:56.577Z");
    assert_eq!(channel.title, "タイトルです");
    assert_eq!(channel.link, "リンクです");
    assert_eq!(channel.description, "説明です");
    let items = &channel.items;
    assert_eq!(items.len(), 1);
    let item = items.get(0).unwrap();
    assert_eq!(item.title, "アイテムのタイトルです");
    assert_eq!(item.link, "アイテムへのリンクです");
    assert_eq!(item.pub_date, "2021-08-12T11:37:05.000Z");
    assert_eq!(item.description.as_deref(), Some("アイテムの説明です"));
    assert_eq!(item.comments, "アイテムへのコメントです");
}
