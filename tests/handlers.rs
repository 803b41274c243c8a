use movie_store::{
    create_movie, delete_movie, get_movie, list_movies, update_movie, Body, Movie, MovieStore,
    Response, HTTP_CREATED, HTTP_NOT_FOUND, HTTP_NO_CONTENT, HTTP_OK,
};

fn movie(id: &str, name: &str, year: u16, was_good: bool) -> Movie {
    Movie { id: id.to_string(), name: name.to_string(), year, was_good }
}

fn body_movie(r: &Response) -> &Movie {
    match &r.body {
        Body::Movie(m) => m,
        other => panic!("expected a movie, got {:?}", other),
    }
}

fn body_movies(r: &Response) -> &Vec<Movie> {
    match &r.body {
        Body::Movies(v) => v,
        other => panic!("expected a list, got {:?}", other),
    }
}

#[test]
fn create_movie_returns_created() {
    let mut store = MovieStore::new();
    let response = create_movie(&mut store, movie("1", "Test Movie", 2024, true));
    assert_eq!(response.status, HTTP_CREATED);
    let m = body_movie(&response);
    assert_eq!(m.id, "1");
    assert_eq!(m.name, "Test Movie");
    assert_eq!(m.year, 2024);
    assert!(m.was_good);
}

#[test]
fn get_movie_not_found() {
    let store = MovieStore::new();
    let response = get_movie(&store, &"999".to_string());
    assert_eq!(response.status, HTTP_NOT_FOUND);
    assert_eq!(response.body, Body::Message("movie not found".to_string()));
}

#[test]
fn create_and_get_movie() {
    let mut store = MovieStore::new();
    let created = create_movie(&mut store, movie("1", "The Matrix", 1999, true));
    assert_eq!(created.status, HTTP_CREATED);
    let response = get_movie(&store, &"1".to_string());
    assert_eq!(response.status, HTTP_OK);
    let m = body_movie(&response);
    assert_eq!(m.id, "1");
    assert_eq!(m.name, "The Matrix");
    assert_eq!(m.year, 1999);
    assert!(m.was_good);
    assert_eq!(created.body, response.body);
}

#[test]
fn list_movies_empty() {
    let store = MovieStore::new();
    let response = list_movies(&store);
    assert_eq!(response.status, HTTP_OK);
    assert!(body_movies(&response).is_empty());
}

#[test]
fn list_movies_with_data() {
    let mut store = MovieStore::new();
    create_movie(&mut store, movie("1", "Test Movie", 2024, true));
    let response = list_movies(&store);
    assert_eq!(response.status, HTTP_OK);
    assert_eq!(body_movies(&response).len(), 1);
}

#[test]
fn update_movie_success() {
    let mut store = MovieStore::new();
    create_movie(&mut store, movie("1", "Old Name", 2020, false));
    let response = update_movie(&mut store, "1".to_string(), movie("1", "New Name", 2024, true));
    assert_eq!(response.status, HTTP_OK);
    let m = body_movie(&response);
    assert_eq!(m.name, "New Name");
    assert_eq!(m.year, 2024);
    assert!(m.was_good);
}

#[test]
fn update_movie_not_found() {
    let mut store = MovieStore::new();
    let response = update_movie(&mut store, "999".to_string(), movie("999", "Test", 2024, true));
    assert_eq!(response.status, HTTP_NOT_FOUND);
}

#[test]
fn delete_movie_success() {
    let mut store = MovieStore::new();
    create_movie(&mut store, movie("1", "Test", 2024, true));
    let response = delete_movie(&mut store, &"1".to_string());
    assert_eq!(response.status, HTTP_NO_CONTENT);
}

#[test]
fn delete_movie_not_found() {
    let mut store = MovieStore::new();
    let response = delete_movie(&mut store, &"999".to_string());
    assert_eq!(response.status, HTTP_NOT_FOUND);
}

#[test]
fn update_not_found_leaves_store_unchanged() {
    let mut store = MovieStore::new();
    update_movie(&mut store, "999".to_string(), movie("999", "Test", 2024, true));
    assert!(body_movies(&list_movies(&store)).is_empty());
    assert_eq!(
        update_movie(&mut store, "999".to_string(), movie("999", "Test", 2024, true)).body,
        Body::Message("movie not found".to_string())
    );
}

#[test]
fn delete_twice_reports_not_found_the_second_time() {
    let mut store = MovieStore::new();
    create_movie(&mut store, movie("1", "Test", 2024, true));
    let first = delete_movie(&mut store, &"1".to_string());
    assert_eq!(first, Response { status: HTTP_NO_CONTENT, body: Body::Empty });
    let second = delete_movie(&mut store, &"1".to_string());
    assert_eq!(second, Response { status: HTTP_NOT_FOUND, body: Body::Empty });
}

#[test]
fn create_echoes_exact_payload() {
    let mut store = MovieStore::new();
    let r = create_movie(&mut store, movie("1", "The Matrix", 1999, true));
    assert_eq!(r, Response { status: HTTP_CREATED, body: Body::Movie(movie("1", "The Matrix", 1999, true)) });
}
