use fxa_email_service::limiter::{BounceLimit, BounceLimiter, BounceLimits, Category};
use fxa_email_service::queue::{
    process_batch, BounceType, LoopAction, LoopPhase, NotificationKind, QueueLoop, QueueMessage,
};

#[test]
fn failure_resets_count_and_keeps_polling() {
    let mut l = QueueLoop::new();
    l.on_received();
    assert_eq!(l.phase, LoopPhase::Processing);
    assert_eq!(l.on_processed(3), LoopAction::LogProgress { processed: 3, total: 3 });
    assert_eq!(l.on_processed(0), LoopAction::Poll);
    assert_eq!(l.on_processed(2), LoopAction::LogProgress { processed: 2, total: 5 });
    assert_eq!(l.on_error(), LoopAction::LogError);
    assert_eq!(l.total, 0);
    assert_eq!(l.phase, LoopPhase::Polling);
    assert_eq!(l.on_processed(1), LoopAction::LogProgress { processed: 1, total: 1 });
}

#[test]
fn running_total_saturates() {
    let mut l = QueueLoop { phase: LoopPhase::Polling, total: u64::MAX - 1 };
    assert_eq!(l.on_processed(5), LoopAction::LogProgress { processed: 5, total: u64::MAX });
}

#[test]
fn batch_records_each_recipient_and_forwards_payloads() {
    let mut lim = BounceLimiter::new(BounceLimits {
        enabled: true,
        complaint: vec![BounceLimit { period: 60, limit: 5 }],
        hard: vec![],
        soft: vec![],
    });
    let batch = vec![
        QueueMessage {
            kind: NotificationKind::Complaint,
            timestamp: 10,
            recipients: vec!["a@x.com".to_string(), "b@x.com".to_string()],
            payload: "first".to_string(),
        },
        QueueMessage {
            kind: NotificationKind::Bounce(BounceType::Soft),
            timestamp: 11,
            recipients: vec!["a@x.com".to_string()],
            payload: "second".to_string(),
        },
        QueueMessage {
            kind: NotificationKind::Delivery,
            timestamp: 12,
            recipients: vec![],
            payload: "third".to_string(),
        },
    ];
    let forward = process_batch(&mut lim, &batch);
    assert_eq!(forward, vec!["first", "second", "third"]);
    assert_eq!(lim.count_in_window("a@x.com", Category::Complaint, 12, 60), 1);
    assert_eq!(lim.count_in_window("b@x.com", Category::Complaint, 12, 60), 1);
    assert_eq!(lim.count_in_window("a@x.com", Category::SoftBounce, 12, 60), 1);
    assert_eq!(NotificationKind::Bounce(BounceType::Hard).category(), Category::HardBounce);
}
