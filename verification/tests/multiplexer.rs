//! The command multiplexer with real tasks and channels: many producers
//! share one manager through a bounded queue; each command carries its
//! own single-use responder. The manager owns the exclusive resource
//! (here the store itself stands in for the one connection).

use std::time::Duration;

use tokio::runtime::Runtime;
use tokio::sync::{mpsc, oneshot};
use tokio::time::timeout;

use my_redis::command::{handle_request, Command, Reply, Request};
use my_redis::store::new_sharded_db;

type Message = (Command, oneshot::Sender<Reply>);

fn spawn_manager(mut rx: mpsc::Receiver<Message>) -> tokio::task::JoinHandle<()> {
    tokio::spawn(async move {
        let mut db = new_sharded_db(8);
        while let Some((cmd, resp)) = rx.recv().await {
            let reply = handle_request(&mut db, Request::Cmd(cmd));
            // a dropped responder makes this a no-op failure: ignored
            let _ = resp.send(reply);
        }
    })
}

#[test]
fn manager_terminates_after_all_handles_dropped() {
    let rt = Runtime::new().unwrap();
    rt.block_on(async {
        let (tx, rx) = mpsc::channel::<Message>(32);
        let manager = spawn_manager(rx);
        let tx2 = tx.clone();

        let t1 = tokio::spawn(async move {
            let (resp_tx, resp_rx) = oneshot::channel();
            let cmd = Command::Put {
                key: b"foo".to_vec(),
                value: b"bar".to_vec(),
            };
            tx.send((cmd, resp_tx)).await.unwrap();
            assert_eq!(resp_rx.await.unwrap(), Reply::Done);
        });
        let t2 = tokio::spawn(async move {
            let (resp_tx, resp_rx) = oneshot::channel();
            let cmd = Command::Get {
                key: b"unset".to_vec(),
            };
            tx2.send((cmd, resp_tx)).await.unwrap();
            assert_eq!(resp_rx.await.unwrap(), Reply::Absent);
        });
        t1.await.unwrap();
        t2.await.unwrap();
        // both producer handles are gone: the manager observes queue
        // closure and stops, rather than dangling
        timeout(Duration::from_secs(5), manager)
            .await
            .expect("manager kept running after queue closure")
            .unwrap();
    });
}

#[test]
fn dropped_responder_does_not_disturb_manager() {
    let rt = Runtime::new().unwrap();
    rt.block_on(async {
        let (tx, rx) = mpsc::channel::<Message>(32);
        let manager = spawn_manager(rx);

        // a caller abandons interest before the manager replies
        let (resp_tx, resp_rx) = oneshot::channel();
        drop(resp_rx);
        let cmd = Command::Put {
            key: b"hello".to_vec(),
            value: b"world".to_vec(),
        };
        tx.send((cmd, resp_tx)).await.unwrap();

        // subsequent commands are served as if nothing happened, and the
        // abandoned command still took effect
        let (resp_tx, resp_rx) = oneshot::channel();
        let cmd = Command::Get {
            key: b"hello".to_vec(),
        };
        tx.send((cmd, resp_tx)).await.unwrap();
        assert_eq!(
            timeout(Duration::from_secs(5), resp_rx).await.unwrap().unwrap(),
            Reply::Value(b"world".to_vec())
        );

        drop(tx);
        timeout(Duration::from_secs(5), manager)
            .await
            .expect("manager kept running after queue closure")
            .unwrap();
    });
}

#[test]
fn commands_answered_in_submission_order() {
    let rt = Runtime::new().unwrap();
    rt.block_on(async {
        let (tx, rx) = mpsc::channel::<Message>(32);
        let manager = spawn_manager(rx);

        let mut receivers = Vec::new();
        for i in 0..20u32 {
            let (resp_tx, resp_rx) = oneshot::channel();
            let cmd = Command::Put {
                key: b"seq".to_vec(),
                value: format!("v_{i}").into_bytes(),
            };
            tx.send((cmd, resp_tx)).await.unwrap();
            receivers.push(resp_rx);
        }
        let (resp_tx, resp_rx) = oneshot::channel();
        tx.send((Command::Get { key: b"seq".to_vec() }, resp_tx))
            .await
            .unwrap();
        for r in receivers {
            assert_eq!(r.await.unwrap(), Reply::Done);
        }
        // FIFO: the last committed write is the last one enqueued
        assert_eq!(resp_rx.await.unwrap(), Reply::Value(b"v_19".to_vec()));

        drop(tx);
        timeout(Duration::from_secs(5), manager).await.unwrap().unwrap();
    });
}
