use pantheon::glados::{
    new_task_id, ActiveTask, AddTaskError, Glados, GladosAction, GladosEvent, GladosInternalError,
};
use pantheon::hermes::{
    Criteria, DeliveryPlan, Hermes, MessageMeta, SubscribeToError, SubscriberIdCriteria,
    SubscriberNameCriteria, SubscriberRef,
};
use pantheon::spells::{CtrlCAction, CtrlCState};
use pantheon::task_builder::TaskBuilder;
use std::any::TypeId;

type Result<T> = std::result::Result<T, ()>;

#[test]
fn test_task_builder() {
    let builder = TaskBuilder::new("test")
        .with_funct(|_ctx: ()| async { Result::Ok(()) })
        .with_ctx(())
        .with_cancel_funct(|| async { Result::Ok(()) });

    assert!(builder.has_funct());
    assert!(builder.has_cancel_funct());
    assert!(builder.has_ctx());
}

#[test]
fn task_builder_parts_come_back() {
    let builder = TaskBuilder::new("worker").with_funct(3u8).with_ctx("ctx").with_cancel_funct(4u16);
    assert_eq!(builder.name(), "worker");
    let (name, f, c, x) = builder.into_parts();
    assert_eq!(name, "worker");
    assert_eq!((f, c, x), (3u8, 4u16, "ctx"));
    let fresh = TaskBuilder::new("empty");
    assert!(!fresh.has_funct() && !fresh.has_ctx() && !fresh.has_cancel_funct());
}

fn ids(g: &Glados<&'static str>) -> Vec<u128> {
    g.active_tasks().iter().map(|t| t.id).collect()
}

#[test]
fn glados_adds_and_removes_tasks() {
    let mut g: Glados<&'static str> = Glados::new(8);
    assert_eq!(g.channel_capacity(), 8);
    assert!(matches!(g.step(GladosEvent::AddTask { id: 1, handle: "a" }), GladosAction::RespondAdd(Ok(1))));
    assert!(matches!(g.step(GladosEvent::AddTask { id: 2, handle: "b" }), GladosAction::RespondAdd(Ok(2))));
    assert!(matches!(g.step(GladosEvent::AddTask { id: 3, handle: "c" }), GladosAction::RespondAdd(Ok(3))));
    match g.step(GladosEvent::RemoveTask(1)) {
        GladosAction::Join(ActiveTask { id, handle }) => {
            assert_eq!(id, 1);
            assert_eq!(handle, "a");
        }
        _ => panic!("expected a join"),
    }
    // The last task takes the place of the removed one.
    assert_eq!(ids(&g), vec![3, 2]);
    assert!(matches!(
        g.step(GladosEvent::RemoveTask(9)),
        GladosAction::Fail(GladosInternalError::TaskNotFound)
    ));
    assert_eq!(ids(&g), vec![3, 2]);
}

#[test]
fn glados_graceful_shutdown_refuses_new_tasks_and_stops_when_empty() {
    let mut g: Glados<&'static str> = Glados::new(1);
    g.step(GladosEvent::AddTask { id: 5, handle: "t" });
    assert!(!g.should_stop());
    assert!(matches!(g.step(GladosEvent::GracefulShutdown), GladosAction::CancelAll));
    assert!(g.is_shutting_down());
    assert!(!g.should_stop());
    assert!(matches!(
        g.step(GladosEvent::AddTask { id: 6, handle: "u" }),
        GladosAction::RespondAdd(Err(AddTaskError::ShutdownInProgress))
    ));
    assert_eq!(ids(&g), vec![5]);
    assert!(matches!(g.step(GladosEvent::RemoveTask(5)), GladosAction::Join(_)));
    assert!(g.should_stop());
}

#[test]
fn glados_forced_shutdown_and_closed_channel() {
    let mut g: Glados<u8> = Glados::new(1);
    g.step(GladosEvent::AddTask { id: 1, handle: 0 });
    assert!(matches!(g.step(GladosEvent::ForcedShutdown), GladosAction::AbortAllAndStop));
    assert_eq!(g.active_tasks().len(), 1);
    assert!(matches!(
        g.step(GladosEvent::ChannelClosed),
        GladosAction::Fail(GladosInternalError::ChannelClosed)
    ));
    for t in g.active_tasks_mut().iter_mut() {
        t.handle = 7;
    }
    assert_eq!(g.active_tasks()[0].handle, 7);
}

fn subscriber(id: u128, name: &str) -> SubscriberRef<u32> {
    SubscriberRef { subscriber_id: id, subscriber_name: name.to_string(), sender: 0 }
}

#[test]
fn hermes_exclusive_subscriber_takes_every_message() {
    let mut h: Hermes<u32> = Hermes::new(10);
    assert_eq!(h.channel_capacity(), 10);
    let meta = MessageMeta::of::<String>();
    assert_eq!(h.subscribe_with(meta, true, subscriber(1, "solo")), Ok(()));
    assert_eq!(
        h.subscribe_with(meta, true, subscriber(2, "other")),
        Err(SubscribeToError::ExclusiveSubscriberAlreadyExists)
    );
    match h.delivery_plan(&TypeId::of::<String>()) {
        DeliveryPlan::Exclusive(i) => assert_eq!(h.exclusive_subscriber(i).unwrap().subscriber_name, "solo"),
        other => panic!("unexpected {other:?}"),
    }
    assert_eq!(h.delivery_plan(&TypeId::of::<u8>()), DeliveryPlan::Shared(vec![]));
}

#[test]
fn hermes_shared_subscribers_receive_in_order() {
    let mut h: Hermes<u32> = Hermes::new(4);
    let meta = MessageMeta::of::<u64>();
    assert_eq!(h.subscribe_with(meta, false, subscriber(7, "a")), Ok(()));
    assert_eq!(h.subscribe_with(meta, false, subscriber(9, "b")), Ok(()));
    assert_eq!(
        h.subscribe_with(meta, false, subscriber(7, "a again")),
        Err(SubscribeToError::AlreadySubscribed)
    );
    assert_eq!(h.delivery_plan(&TypeId::of::<u64>()), DeliveryPlan::Shared(vec![7, 9]));
    assert_eq!(
        h.subscribe_with(meta, true, subscriber(11, "x")),
        Err(SubscribeToError::SubscriberFound)
    );
    assert_eq!(h.subscriber(9).unwrap().subscriber_name, "b");
    assert!(h.subscriber(10).is_none());
    assert!(h.subscribe(String::from("c"), meta, false, 0).is_ok());
    match h.delivery_plan(&TypeId::of::<u64>()) {
        DeliveryPlan::Shared(ids) => assert_eq!(ids.len(), 3),
        other => panic!("unexpected {other:?}"),
    }
}

#[test]
fn shared_delivery_goes_to_the_matching_subscribers() {
    let mut h: Hermes<u32> = Hermes::new(10);
    let meta = MessageMeta::of::<u64>();
    assert!(h.subscribe_with(meta, false, subscriber(1, "a")).is_ok());
    assert!(h.subscribe_with(meta, false, subscriber(2, "b")).is_ok());
    assert!(h.subscribe_with(meta, false, subscriber(3, "a")).is_ok());
    let ids = match h.delivery_plan(&TypeId::of::<u64>()) {
        DeliveryPlan::Shared(ids) => ids,
        other => panic!("unexpected {other:?}"),
    };
    assert_eq!(h.recipients::<SubscriberNameCriteria>(ids.clone(), None), vec![1, 2, 3]);
    let by_name = SubscriberNameCriteria { name: "a" };
    assert_eq!(h.recipients(ids.clone(), Some(&by_name)), vec![1, 3]);
    let dynamic: Box<dyn Criteria<u32>> = Box::new(SubscriberIdCriteria { subscriber_id: 2 });
    assert_eq!(h.recipients(ids.clone(), Some(dynamic.as_ref())), vec![2]);
    let nobody = SubscriberIdCriteria { subscriber_id: 9 };
    assert!(h.recipients(ids, Some(&nobody)).is_empty());
    assert_eq!(h.recipients(vec![7, 1], Some(&by_name)), vec![1]);
}

#[test]
fn hermes_criteria_and_meta() {
    let s = subscriber(3, "name");
    assert!(SubscriberNameCriteria { name: "name" }.matches(&s));
    assert!(!SubscriberNameCriteria { name: "nam" }.matches(&s));
    assert!(SubscriberIdCriteria { subscriber_id: 3 }.matches(&s));
    assert!(!SubscriberIdCriteria { subscriber_id: 4 }.matches(&s));
    let a = MessageMeta::of::<u8>();
    assert!(a.same_as(&MessageMeta::of::<u8>()));
    assert!(!a.same_as(&MessageMeta::of::<i8>()));
    assert_eq!(a.type_id(), TypeId::of::<u8>());
}

#[test]
fn ctrl_c_first_press_cancels_then_exits() {
    let mut s = CtrlCState::new();
    assert_eq!(s.on_press(), CtrlCAction::Cancel);
    assert_eq!(s.on_press(), CtrlCAction::ExitNow);
    assert_eq!(s.on_press(), CtrlCAction::ExitNow);
}

#[test]
fn task_ids_are_version_4_uuids() {
    let a = new_task_id();
    let b = new_task_id();
    assert_ne!(a, b);
    for id in [a, b] {
        assert_eq!((id >> 76) & 0xf, 4);
        assert_eq!((id >> 62) & 0x3, 2);
    }
}

#[test]
fn hermes_exclusive_slot_out_of_range_is_none() {
    let h: Hermes<u8> = Hermes::new(4);
    assert!(h.exclusive_subscriber(0).is_none());
}
