use std::sync::Arc;

use axum_oauth::oauth::database::Database;
use axum_oauth::oauth::models::ClientId;
use axum_oauth::oauth::primitives::registrar::PasswordPolicy;
use tokio::sync::RwLock;

#[test]
fn concurrent_registrations_lose_no_client() {
    let runtime = tokio::runtime::Builder::new_multi_thread()
        .worker_threads(4)
        .build()
        .unwrap();
    let db = Arc::new(RwLock::new(Database::with_policy(PasswordPolicy::Plain)));
    let callers = 32;
    let registered: Vec<(String, String)> = runtime.block_on(async {
        let tasks: Vec<_> = (0..callers)
            .map(|n| {
                let db = Arc::clone(&db);
                tokio::spawn(async move {
                    let name = format!("client {}", n);
                    let registered = db
                        .write()
                        .await
                        .register_public_client(&name, "https://foo/authorized", "");
                    (name, registered.unwrap().0)
                })
            })
            .collect();
        let mut done = Vec::new();
        for task in tasks {
            done.push(task.await.unwrap());
        }
        done
    });
    let db = runtime.block_on(db.read());
    assert_eq!(db.client_count(), callers);
    for (name, id) in registered {
        let client = ClientId::from_str(&id).unwrap();
        assert_eq!(db.get_client_name(&client).unwrap().inner, name);
    }
}
