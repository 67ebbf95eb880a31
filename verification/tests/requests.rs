use cereal::chapter::Chapter;
use cereal::clients::mailgun::{check_status as check_mail_status, MailgunError};
use cereal::clients::pushover::{check_status as check_push_status, PushError};
use cereal::handlers::{
    chapter_of, download_book, file_title, get_chapter, ChapterWithMeta, DownloadError,
};
use cereal::providers::html::{HtmlElement, PageError};

fn page(title: &str, book: &str, author: &str) -> ChapterWithMeta {
    ChapterWithMeta {
        chapter: Chapter { body: format!("<p>{}</p>", title), title: title.into() },
        author: author.into(),
        title: book.into(),
    }
}

#[test]
fn chapters_of_one_book_make_a_book() {
    let book = download_book(vec![page("One", "B", "A"), page("Two", "B", "A")]).unwrap();
    assert_eq!(book.title, "B");
    assert_eq!(book.author, "A");
    assert_eq!(book.chapters.len(), 2);
    assert_eq!(book.chapters[0].title, "One");
    assert_eq!(book.chapters[1].body, "<p>Two</p>");
}

#[test]
fn chapters_of_several_books_make_none() {
    assert!(matches!(
        download_book(vec![page("One", "B", "A"), page("Two", "C", "A")]),
        Err(DownloadError::Mixed)
    ));
    assert!(matches!(
        download_book(vec![page("One", "B", "A"), page("Two", "B", "Z")]),
        Err(DownloadError::Mixed)
    ));
    assert!(matches!(download_book(vec![]), Err(DownloadError::Empty)));
}

#[test]
fn a_file_is_named_by_its_first_and_last_chapter() {
    assert_eq!(file_title(&vec!["One".to_string()]), "One");
    assert_eq!(file_title(&vec!["One".to_string(), "Two".to_string()]), "One - Two");
    assert_eq!(
        file_title(&vec!["One".to_string(), "Two".to_string(), "Three".to_string()]),
        "One - Three"
    );
}

#[test]
fn any_status_but_the_two_hundreds_is_a_failure_of_the_service() {
    assert_eq!(check_push_status(200), Ok(()));
    assert_eq!(check_push_status(299), Ok(()));
    assert_eq!(check_push_status(500), Err(PushError::NotificationServiceFailure(500)));
    assert_eq!(check_push_status(302), Err(PushError::NotificationServiceFailure(302)));
    assert_eq!(check_push_status(199), Err(PushError::NotificationServiceFailure(199)));
    assert_eq!(check_mail_status(204), Ok(()));
    assert_eq!(check_mail_status(401), Err(MailgunError::MailgunError(401)));
    assert_eq!(check_mail_status(300), Err(MailgunError::MailgunError(300)));
}

fn element(texts: &[&str], html: &str) -> HtmlElement {
    HtmlElement {
        id: None,
        attribute: None,
        texts: texts.iter().map(|t| t.to_string()).collect(),
        html: html.into(),
        next_texts: None,
    }
}

fn page_text(result: Result<ChapterWithMeta, PageError>) -> String {
    match result {
        Err(PageError::WebParse(text)) => text,
        Ok(_) => panic!("expected an error"),
    }
}

#[test]
fn a_chapter_is_read_from_its_page() {
    let page = r#"<html><body><div class="fic-header"><h1> Chapter 1 </h1><h2>The Book</h2><h3>by <b>Writer</b></h3></div><div class="chapter-inner"><p>Text</p></div></body></html>"#;
    let found = get_chapter("https://www.royalroad.com/fiction/chapter/1", page).unwrap();
    assert_eq!(found.chapter.title, "Chapter 1");
    assert_eq!(found.chapter.body, r#"<div class="chapter-inner"><p>Text</p></div>"#);
    assert_eq!(found.title, "The Book");
    assert_eq!(found.author, "by Writer");
}

#[test]
fn a_chapters_page_is_refused_for_the_first_thing_it_lacks() {
    let body = vec![element(&[], "<div>b</div>")];
    let text = vec![element(&[" t "], "")];
    let blank = vec![element(&[" "], "")];
    let none = vec![];
    assert_eq!(page_text(chapter_of("L", &none, &text, &text, &text)), "Failed to find body in L");
    assert_eq!(page_text(chapter_of("L", &body, &none, &text, &text)), "Failed to find title in L");
    assert_eq!(page_text(chapter_of("L", &body, &blank, &text, &text)), "Title text was empty.");
    assert_eq!(
        page_text(chapter_of("L", &body, &text, &none, &text)),
        "Failed to find book title in L"
    );
    assert_eq!(page_text(chapter_of("L", &body, &text, &blank, &text)), "Title text was empty.");
    assert_eq!(page_text(chapter_of("L", &body, &text, &text, &none)), "Failed to find author in L");
    assert_eq!(page_text(chapter_of("L", &body, &text, &text, &blank)), "Author text was empty.");
    assert_eq!(page_text(get_chapter("L", "<html></html>")), "Failed to find body in L");
    let found = chapter_of("L", &body, &text, &text, &text).unwrap();
    assert_eq!((found.chapter.title.as_str(), found.title.as_str(), found.author.as_str()), ("t", "t", "t"));
}
