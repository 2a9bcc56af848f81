use recipe_manager::htmlscraper::{
    recipe_details, results_from, search_results, search_url, texts_from, RecipeDetails,
    SearchResult,
};

fn result(title: &str, link: &str) -> SearchResult {
    SearchResult { title: title.to_string(), link: link.to_string() }
}

#[test]
fn a_search_term_is_escaped_in_the_address() {
    let prefix = "https://www.nefisyemektarifleri.com/ara/page/1/?s=";
    assert_eq!(search_url("kek"), format!("{}kek", prefix));
    assert_eq!(search_url(""), prefix);
    assert_eq!(search_url("mercimek corbasi"), format!("{}mercimek%20corbasi", prefix));
    assert_eq!(search_url("a-b_c.d~e"), format!("{}a-b_c.d~e", prefix));
    assert_eq!(search_url("a&b=c/d?"), format!("{}a%26b%3Dc%2Fd%3F", prefix));
    assert_eq!(search_url("çorba"), format!("{}%C3%A7orba", prefix));
    assert_eq!(search_url("AZaz09"), format!("{}AZaz09", prefix));
}

#[test]
fn the_links_of_a_search_page_are_its_results() {
    let page = "<html><body>\
        <a class=\"title\" href=\"http://x/1\">Lentil Soup</a>\
        <a class=\"other\" href=\"http://x/2\">Not a result</a>\
        <div><a class=\"title big\" href=\"http://x/3\">Bean <b>Stew</b></a></div>\
        <a class=\"title\">No target</a>\
        </body></html>";
    assert_eq!(
        search_results(page),
        Ok(vec![
            result("Lentil Soup", "http://x/1"),
            result("Bean Stew", "http://x/3"),
            result("No target", ""),
        ])
    );
}

#[test]
fn a_page_without_results_lists_none() {
    assert_eq!(search_results("<html><body><p>nothing</p></body></html>"), Ok(vec![]));
    assert_eq!(search_results(""), Ok(vec![]));
}

#[test]
fn the_page_of_a_recipe_lists_materials_and_steps() {
    let page = "<html><body>\
        <ul class=\"recipe-materials\"><li>2 cups lentils</li><li>1 <i>onion</i></li></ul>\
        <ul class=\"other\"><li>not a material</li></ul>\
        <ol class=\"recipe-instructions\"><li>Chop</li><li>Boil<ul><li>nested</li></ul></li></ol>\
        </body></html>";
    assert_eq!(
        recipe_details(page),
        Ok(RecipeDetails {
            materials: vec!["2 cups lentils".to_string(), "1 onion".to_string()],
            steps: vec!["Chop".to_string(), "Boilnested".to_string()],
        })
    );
}

#[test]
fn a_page_without_lists_has_no_details() {
    assert_eq!(recipe_details("<p>hello</p>"), Ok(RecipeDetails { materials: vec![], steps: vec![] }));
}

#[test]
fn elements_become_results_and_texts() {
    let found = vec![
        ("a".to_string(), Some("http://a".to_string())),
        ("b".to_string(), None),
        ("".to_string(), Some("".to_string())),
    ];
    assert_eq!(
        results_from(found.clone()),
        vec![result("a", "http://a"), result("b", ""), result("", "")]
    );
    assert_eq!(texts_from(found), vec!["a".to_string(), "b".to_string(), "".to_string()]);
    assert_eq!(results_from(vec![]), vec![]);
    assert_eq!(result("a", "b").duplicate(), result("a", "b"));
}
