use o324_daemon::entities::task::Task;
use o324_daemon::repositories::task_prefix::TaskPrefixRepository;
use o324_daemon::services::task::{ProjectHue, TaskServiceInner};

fn task(id: &str, project: Option<&str>) -> Task {
    Task {
        id: id.to_string(),
        task_name: "n".to_string(),
        project: project.map(|p| p.to_string()),
        tags: vec![],
        start: 1,
        computer_name: "pc".to_string(),
        end: None,
    }
}

#[test]
fn started_tasks_get_prefixes_and_hues() {
    let mut service = TaskServiceInner { task_prefix_repository: TaskPrefixRepository::new() };
    let (m, writes) = service.start_new_task(task("abc1234", Some("p")), Some(120));
    assert_eq!(m.prefix, "ab");
    assert_eq!(m.project_color_hue, Some(120));
    assert!(!writes.is_empty());
    let (m, _) = service.start_new_task(task("abd9999", None), Some(7));
    assert_eq!(m.prefix, "abd");
    assert_eq!(m.project_color_hue, None);
    let colors = vec![ProjectHue { project: "p".to_string(), hue: 120 }];
    let all = service.tasks_with_meta(vec![task("abc1234", Some("p")), task("abd9999", None)], &colors);
    assert_eq!(all.iter().map(|m| m.prefix.as_str()).collect::<Vec<_>>(), vec!["abc", "abd"]);
    assert_eq!(all[0].project_color_hue, Some(120));
    assert_eq!(all[1].project_color_hue, None);
    assert_eq!(all[0].task.id, "abc1234");
}
