use sqlx::sqlite::{SqlitePool, SqlitePoolOptions, SqliteRow};
use sqlx::Row;
use std::future::Future;
use timetrack::booking_query::{
    booking_finish, booking_insert, booking_select, booking_update, BookingGetQueryParams,
    BookingPatchQueryParams, BookingPostQueryParams,
};
use timetrack::query::SqlQuery;
use timetrack::records::{Booking, FinishError};
use timetrack::tag_query::{tag_insert, TagPostQueryParams};
use timetrack::tagassignment_query::{tagassignment_insert, TagAssignmentPostQueryParams};

fn run<F: Future>(f: F) -> F::Output {
    tokio::runtime::Builder::new_current_thread()
        .enable_all()
        .build()
        .unwrap()
        .block_on(f)
}

async fn store() -> SqlitePool {
    let pool = SqlitePoolOptions::new()
        .max_connections(1)
        .connect("sqlite::memory:")
        .await
        .unwrap();
    for ddl in [
        "CREATE TABLE booking (id INTEGER PRIMARY KEY AUTOINCREMENT, startdate INTEGER NOT NULL, enddate INTEGER, des TEXT NOT NULL DEFAULT '')",
        "CREATE TABLE tag (id INTEGER PRIMARY KEY AUTOINCREMENT, name TEXT NOT NULL)",
        "CREATE TABLE tagassignment (tgid INTEGER NOT NULL REFERENCES tag(id), bid INTEGER NOT NULL REFERENCES booking(id), PRIMARY KEY (tgid, bid))",
    ] {
        sqlx::query(ddl).execute(&pool).await.unwrap();
    }
    pool
}

async fn rows(pool: &SqlitePool, mut q: SqlQuery) -> Vec<SqliteRow> {
    q.builder.build().fetch_all(pool).await.unwrap()
}

fn booking(row: &SqliteRow) -> Booking {
    Booking {
        id: row.get("id"),
        startdate: row.get("startdate"),
        enddate: row.get("enddate"),
        des: row.get("des"),
    }
}

fn no_filter() -> BookingGetQueryParams {
    BookingGetQueryParams {
        id: None,
        startdate_min: None,
        startdate_max: None,
        enddate_min: None,
        enddate_max: None,
        tag: None,
        description_contains: None,
    }
}

async fn add_booking(pool: &SqlitePool, des: &str, now: i64) -> Booking {
    let p = BookingPostQueryParams { startdate: None, enddate: None, description: Some(des.to_string()) };
    booking(&rows(pool, booking_insert(&p, now)).await[0])
}

async fn add_tag(pool: &SqlitePool, name: &str) -> i64 {
    let r = rows(pool, tag_insert(&TagPostQueryParams { name: name.to_string() })).await;
    assert_eq!(r[0].get::<String, _>("name"), name);
    r[0].get("id")
}

#[test]
fn standup_scenario() {
    run(async {
        let pool = store().await;
        let created = add_booking(&pool, "standup", 1_000).await;
        assert_eq!(created.startdate, 1_000);
        assert_eq!(created.enddate, None);
        assert_eq!(created.des, "standup");

        let found = rows(
            &pool,
            booking_select(&BookingGetQueryParams {
                description_contains: Some("stand".to_string()),
                ..no_filter()
            }),
        )
        .await;
        assert_eq!(found.len(), 1);
        assert_eq!(booking(&found[0]).enddate, None);

        let change = BookingPatchQueryParams { id: created.id, startdate: None, enddate: Some(5_000), description: None };
        let updated = booking(&rows(&pool, booking_update(&change).unwrap()).await[0]);
        assert_eq!(updated.enddate, Some(5_000));
        assert_eq!(updated.startdate, 1_000);
        assert_eq!(updated.des, "standup");

        assert_eq!(booking_finish(&updated, 9_000).err(), Some(FinishError::AlreadyFinished));
        let again = rows(&pool, booking_select(&BookingGetQueryParams { id: Some(created.id), ..no_filter() })).await;
        assert_eq!(booking(&again[0]).enddate, Some(5_000));
    });
}

#[test]
fn finish_writes_end_once() {
    run(async {
        let pool = store().await;
        let b = add_booking(&pool, "call", 1_000).await;
        let done = rows(&pool, booking_finish(&b, 4_000).unwrap()).await;
        assert_eq!(booking(&done[0]).enddate, Some(4_000));
        // The stored row is finished now: a stale copy cannot finish it twice.
        let stale = rows(&pool, booking_finish(&b, 8_000).unwrap()).await;
        assert!(stale.is_empty());
    });
}

#[test]
fn empty_filter_reads_every_booking() {
    run(async {
        let pool = store().await;
        for (i, d) in ["a", "b", "c"].iter().enumerate() {
            add_booking(&pool, d, 10 * i as i64).await;
        }
        assert_eq!(rows(&pool, booking_select(&no_filter())).await.len(), 3);
        let again = rows(&pool, booking_select(&BookingGetQueryParams { tag: Some(vec![]), ..no_filter() })).await;
        assert_eq!(again.len(), 3);
    });
}

#[test]
fn same_filter_reads_same_rows() {
    run(async {
        let pool = store().await;
        for (i, d) in ["standup", "review", "stand-in"].iter().enumerate() {
            add_booking(&pool, d, 100 * i as i64).await;
        }
        let p = BookingGetQueryParams {
            startdate_min: Some(-1),
            description_contains: Some("stand".to_string()),
            ..no_filter()
        };
        let first: Vec<Booking> = rows(&pool, booking_select(&p)).await.iter().map(booking).collect();
        let second: Vec<Booking> = rows(&pool, booking_select(&p)).await.iter().map(booking).collect();
        assert_eq!(first.len(), 2);
        let ids = |v: &Vec<Booking>| v.iter().map(|b| (b.id, b.startdate, b.des.clone())).collect::<Vec<_>>();
        assert_eq!(ids(&first), ids(&second));
    });
}

#[test]
fn bound_values_reach_storage() {
    run(async {
        let pool = store().await;
        for (i, d) in ["a", "b", "c"].iter().enumerate() {
            add_booking(&pool, d, 100 * i as i64).await;
        }
        let p = BookingGetQueryParams { startdate_min: Some(50), startdate_max: Some(150), ..no_filter() };
        let r = rows(&pool, booking_select(&p)).await;
        assert_eq!(r.len(), 1);
        assert_eq!(booking(&r[0]).des, "b");
    });
}

#[test]
fn tag_filter_reads_tagged_bookings() {
    run(async {
        let pool = store().await;
        let work = add_tag(&pool, "work").await;
        let home = add_tag(&pool, "home").await;
        let a = add_booking(&pool, "a", 1).await;
        let b = add_booking(&pool, "b", 2).await;
        add_booking(&pool, "c", 3).await;
        rows(&pool, tagassignment_insert(&TagAssignmentPostQueryParams { tag_id: vec![work], booking_id: a.id })).await;
        rows(&pool, tagassignment_insert(&TagAssignmentPostQueryParams { tag_id: vec![home], booking_id: b.id })).await;
        let p = BookingGetQueryParams { tag: Some(vec!["work".to_string(), "home".to_string()]), ..no_filter() };
        let mut ids: Vec<i64> = rows(&pool, booking_select(&p)).await.iter().map(|r| booking(r).id).collect();
        ids.sort();
        assert_eq!(ids, vec![a.id, b.id]);
        let only = BookingGetQueryParams { id: Some(b.id), tag: Some(vec!["work".to_string()]), ..no_filter() };
        assert!(rows(&pool, booking_select(&only)).await.is_empty());
    });
}

#[test]
fn assignment_insert_returns_one_row_per_tag() {
    run(async {
        let pool = store().await;
        let b = add_booking(&pool, "a", 1).await;
        let mut tags = Vec::new();
        for n in ["x", "y", "z"] {
            tags.push(add_tag(&pool, n).await);
        }
        let mut tx = pool.begin().await.unwrap();
        let mut q = tagassignment_insert(&TagAssignmentPostQueryParams { tag_id: tags.clone(), booking_id: b.id });
        let out = q.builder.build().fetch_all(&mut *tx).await.unwrap();
        tx.commit().await.unwrap();
        assert_eq!(out.len(), 3);
        for (row, t) in out.iter().zip(tags.iter()) {
            assert_eq!(row.get::<i64, _>("tgid"), *t);
            assert_eq!(row.get::<i64, _>("bid"), b.id);
        }
    });
}

#[test]
fn failing_assignment_leaves_no_rows() {
    run(async {
        let pool = store().await;
        let b = add_booking(&pool, "a", 1).await;
        let x = add_tag(&pool, "x").await;
        let y = add_tag(&pool, "y").await;
        let mut tx = pool.begin().await.unwrap();
        let mut q = tagassignment_insert(&TagAssignmentPostQueryParams { tag_id: vec![x, 999, y], booking_id: b.id });
        let out = q.builder.build().fetch_all(&mut *tx).await;
        assert!(out.is_err());
        tx.rollback().await.unwrap();
        let left = sqlx::query("SELECT tgid FROM tagassignment").fetch_all(&pool).await.unwrap();
        assert!(left.is_empty());
    });
}
